//! The synthetic package of single-file mode: a package `single` of the
//! local module that holds the one source file and imports every discovered
//! package, so the file can use any of them without declaring them.

use vstd::prelude::*;

use crate::discover::{get_immut_alias, immut_alias};
use crate::discover::model::{
    package_name, with_package, DiscoverError, DiscoverResult, DiscoveredPackage, Import, PackageConfig,
};
use crate::build_lower::compiler::args::opt_view;
use crate::model::{ModuleId, PackageId};
use crate::path::{components, file_name, path_components, ComponentView, PathComponent};
use crate::text::{ends_with, owned, str_ends_with, str_eq};

verus! {

/// Whether some component of the path `p` is named `internal`.
pub open spec fn has_internal_segment(p: Seq<char>) -> bool {
    path_components(p).contains(ComponentView::Normal("internal"@))
}

/// Whether some component of the path `p` is named `internal`.
pub fn path_has_internal_segment(p: &str) -> (r: bool)
    ensures
        r == has_internal_segment(p@),
{
    let cs = components(p);
    let mut i: usize = 0;
    while i < cs.len()
        invariant
            i <= cs.len(),
            crate::path::comps_view(cs@) == path_components(p@),
            forall|j: int| 0 <= j < i ==> crate::path::comps_view(cs@)[j] != ComponentView::Normal("internal"@),
        decreases cs.len() - i,
    {
        proof {
            assert(crate::path::comps_view(cs@)[i as int] == cs@[i as int]@);
        }
        match &cs[i] {
            PathComponent::Normal(s) => {
                if str_eq(s.as_str(), "internal") {
                    proof {
                        assert(path_components(p@)[i as int] == ComponentView::Normal("internal"@));
                    }
                    return true;
                }
            },
            _ => {},
        }
        i = i + 1;
    }
    proof {
        if path_components(p@).contains(ComponentView::Normal("internal"@)) {
            let j = choose|j: int|
                0 <= j < path_components(p@).len() && path_components(p@)[j] == ComponentView::Normal(
                    "internal"@,
                );
            assert(crate::path::comps_view(cs@)[j] != ComponentView::Normal("internal"@));
        }
    }
    false
}

/// The alias under which the synthetic package imports package `path` of
/// module `module_name`: the immutable-collection alias of the core module's
/// packages, none for the rest.
pub open spec fn synth_alias(module_name: Seq<char>, path: Seq<char>) -> Option<Seq<char>> {
    if module_name == "moonbitlang/core"@ {
        immut_alias("moonbitlang"@, "core"@, path)
    } else {
        None
    }
}

/// An import, as its name and alias.
pub open spec fn import_view(i: Import) -> (Seq<char>, Option<Seq<char>>) {
    (i.path@, opt_view(i.alias))
}

/// The imports of the synthetic package, given the discovered packages and
/// the abort package: every package but the abort package and those with an
/// `internal` segment in their path, by full name, in id order.
pub open spec fn synth_imports(packages: Seq<DiscoveredPackage>, abort: Option<PackageId>) -> Seq<
    (Seq<char>, Option<Seq<char>>),
>
    decreases packages.len(),
{
    if packages.len() == 0 {
        Seq::empty()
    } else {
        let rest = synth_imports(packages.drop_last(), abort);
        let p = packages.last();
        if abort == Some(PackageId((packages.len() - 1) as u64)) || has_internal_segment(p.package_path@) {
            rest
        } else {
            rest.push((package_name(p), synth_alias(p.module_name@, p.package_path@)))
        }
    }
}

/// Whether a file is a Markdown source: its name has the extension `md`.
pub open spec fn is_markdown_file(file: Seq<char>) -> bool {
    file_name(file) matches Some(n) && ends_with(n, ".md"@) && n != ".md"@
}

/// The synthetic package's path in its module.
pub const SYNTH_PACKAGE_PATH: &'static str = "single";

/// The synthetic package for source file `file` (in folder `folder`) of
/// module `mid` named `module_name`, importing `imports`; `run_mode` makes
/// it a main package.
pub open spec fn synth_package_is(
    p: DiscoveredPackage,
    mid: ModuleId,
    module_name: Seq<char>,
    file: Seq<char>,
    folder: Seq<char>,
    imports: Seq<(Seq<char>, Option<Seq<char>>)>,
    run_mode: bool,
) -> bool {
    &&& p.root_path@ == folder
    &&& p.module == mid
    &&& p.module_name@ == module_name
    &&& p.package_path@ == SYNTH_PACKAGE_PATH@
    &&& p.is_single_file
    &&& !p.is_stdlib
    &&& p.raw.is_main == run_mode
    &&& p.raw.virtual_pkg is None && p.raw.implement is None && p.raw.native_stub is None
    &&& p.raw.warn_list is None && !p.raw.proof_enabled
    &&& p.raw.imports@.map_values(|i: Import| import_view(i)) == imports
    &&& p.raw.test_imports@.len() == 0 && p.raw.wbtest_imports@.len() == 0
    &&& p.raw.wasm_exports is None && p.raw.wasm_gc_exports is None
    &&& p.raw.js_exports is None && p.raw.native_exports is None
    &&& if is_markdown_file(file) {
        p.source_files@.len() == 0 && p.mbt_md_files@.len() == 1 && p.mbt_md_files@[0]@ == file
    } else {
        p.mbt_md_files@.len() == 0 && p.source_files@.len() == 1 && p.source_files@[0]@ == file
    }
    &&& p.mbt_lex_files@.len() == 0 && p.mbt_yacc_files@.len() == 0 && p.mbtp_files@.len() == 0
    &&& p.c_stub_files@.len() == 0 && p.c_stub_header_files@.len() == 0
    &&& p.virtual_mbti_files@.len() == 0
}

/// Whether `file` is a Markdown source.
pub fn file_is_markdown(file: &str) -> (r: bool)
    ensures
        r == is_markdown_file(file@),
{
    match crate::path::path_file_name(file) {
        Some(n) => str_ends_with(n.as_str(), ".md") && !str_eq(n.as_str(), ".md"),
        None => false,
    }
}

/// Adds the synthetic package `single` for the source file `file` (whose
/// folder is `folder`) to module `mid`, named `module_name`, and returns its
/// id. It imports every package discovered so far except the abort package
/// and packages with an `internal` path segment; `run_mode` makes it a main
/// package. The package is added in any case; when its name is taken, the
/// error names both packages.
pub fn build_synth_single_file_package(
    discovered: &mut DiscoverResult,
    mid: ModuleId,
    module_name: &str,
    file: &str,
    folder: &str,
    run_mode: bool,
) -> (r: Result<PackageId, DiscoverError>)
    requires
        old(discovered).wf(),
    ensures
        final(discovered).wf(),
        exists|p: DiscoveredPackage|
            synth_package_is(
                p,
                mid,
                module_name@,
                file@,
                folder@,
                synth_imports(old(discovered)@.packages, old(discovered)@.abort),
                run_mode,
            ) && #[trigger] with_package(old(discovered)@, mid, SYNTH_PACKAGE_PATH@, p)
                == final(discovered)@,
        match r {
            Ok(id) => id == PackageId(old(discovered)@.packages.len() as u64)
                && !old(discovered)@.names.contains_key(
                crate::discover::model::fqn_name(module_name@, SYNTH_PACKAGE_PATH@),
            ),
            Err(e) => old(discovered)@.names.contains_key(
                crate::discover::model::fqn_name(module_name@, SYNTH_PACKAGE_PATH@),
            ) && e is ConflictingPackageNameString,
        },
{
    let abort = discovered.abort_pkg();
    let n = discovered.packages.len();
    let mut imports: Vec<Import> = Vec::new();
    let mut i: usize = 0;
    while i < n
        invariant
            i <= n,
            n == discovered@.packages.len(),
            abort == discovered@.abort,
            imports@.map_values(|x: Import| import_view(x)) == synth_imports(
                discovered@.packages.take(i as int),
                abort,
            ),
        decreases n - i,
    {
        proof {
            assert(discovered@.packages.take(i + 1).drop_last() =~= discovered@.packages.take(i as int));
            assert(discovered@.packages.take(i + 1).last() == discovered@.packages[i as int]);
        }
        let p = &discovered.packages[i];
        let is_abort = match abort {
            Some(a) => a.0 == i as u64,
            None => false,
        };
        if !is_abort && !path_has_internal_segment(p.package_path.as_str()) {
            let alias = if str_eq(p.module_name.as_str(), "moonbitlang/core") {
                get_immut_alias("moonbitlang", "core", p.package_path.as_str())
            } else {
                None
            };
            let path = p.fqn().name;
            let ghost before = imports@;
            imports.push(Import { path, alias });
            proof {
                assert(imports@.map_values(|x: Import| import_view(x)) =~= before.map_values(
                    |x: Import| import_view(x),
                ).push(import_view(imports@.last())));
            }
        }
        i = i + 1;
    }
    proof {
        assert(discovered@.packages.take(n as int) =~= discovered@.packages);
    }
    let config = PackageConfig {
        virtual_pkg: None,
        implement: None,
        is_main: run_mode,
        imports,
        test_imports: Vec::new(),
        wbtest_imports: Vec::new(),
        wasm_exports: None,
        wasm_gc_exports: None,
        js_exports: None,
        native_exports: None,
        native_stub: None,
        warn_list: None,
        proof_enabled: false,
    };
    let mut files: Vec<String> = Vec::new();
    files.push(owned(file));
    let (source_files, mbt_md_files) = if file_is_markdown(file) {
        (Vec::new(), files)
    } else {
        (files, Vec::new())
    };
    let pkg = DiscoveredPackage {
        root_path: owned(folder),
        module: mid,
        module_name: owned(module_name),
        package_path: owned(SYNTH_PACKAGE_PATH),
        is_single_file: true,
        raw: config,
        source_files,
        mbt_lex_files: Vec::new(),
        mbt_yacc_files: Vec::new(),
        mbt_md_files,
        mbtp_files: Vec::new(),
        c_stub_files: Vec::new(),
        c_stub_header_files: Vec::new(),
        virtual_mbti_files: Vec::new(),
        is_stdlib: false,
    };
    let ghost added = pkg;
    let r = discovered.add_package(mid, owned(SYNTH_PACKAGE_PATH), pkg);
    proof {
        assert(package_name(added) == crate::discover::model::fqn_name(module_name@, SYNTH_PACKAGE_PATH@));
    }
    r
}

} // verus!
