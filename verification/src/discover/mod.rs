//! Package discovery helpers.

pub mod model;
pub mod package_files;
pub mod synth;
pub mod special_case;

use vstd::prelude::*;

use crate::build_lower::artifact::{last_segment, short_alias};
use crate::build_lower::compiler::PackageFQN;
use crate::build_plan::prebuild::relative_normalized;
use crate::model::ModuleId;
use crate::path::{join_path, path_push};
use crate::path_set::{path_sort_stable, sort_paths_stable};
use crate::text::{append_str, owned, starts_with, str_eq, str_starts_with};
use self::model::{lemma_names_valid, DiscoverError, DiscoverResult, DiscoveredPackage, PackageConfig};
use self::package_files::{
    collect_package_source_files, escapes_parent, placed_under, resolve_c_stub_paths, sorted_files_of_kind,
    PackageDirEntry, PackageSourceFileKind,
};

verus! {

/// The alias of an immutable-collection package of the core module: its path
/// in the module, such as `immut/array` for `moonbitlang/core/immut/array`.
/// Single-file mode imports these under that alias to avoid clashing with the
/// mutable collections' aliases; every other package has none.
pub open spec fn immut_alias(username: Seq<char>, unqual: Seq<char>, package_path: Seq<char>) -> Option<
    Seq<char>,
> {
    if starts_with(package_path, "immut/"@) && username == "moonbitlang"@ && unqual == "core"@ {
        Some(package_path)
    } else {
        None
    }
}

/// The alias of an immutable-collection package of the core module, given
/// the package's module (its user and unqualified name) and its path.
pub fn get_immut_alias(username: &str, unqual: &str, package_path: &str) -> (r: Option<String>)
    ensures
        match r {
            Some(s) => immut_alias(username@, unqual@, package_path@) == Some(s@),
            None => immut_alias(username@, unqual@, package_path@) is None,
        },
{
    if !str_starts_with(package_path, "immut/") {
        return None;
    }
    if !str_eq(username, "moonbitlang") || !str_eq(unqual, "core") {
        return None;
    }
    Some(owned(package_path))
}

/// The full name of the standard library's abort package.
pub const MOONBITLANG_ABORT: &'static str = "moonbitlang/core/abort";

/// After all modules are walked: the package named
/// `moonbitlang/core/abort`, when one was found, becomes the abort package;
/// nothing else changes.
pub fn record_abort_package(res: &mut DiscoverResult)
    requires
        old(res).wf(),
    ensures
        final(res).wf(),
        final(res)@.packages == old(res)@.packages,
        final(res)@.modules == old(res)@.modules,
        final(res)@.names == old(res)@.names,
        final(res)@.abort == if old(res)@.names.contains_key(MOONBITLANG_ABORT@) {
            Some(old(res)@.names[MOONBITLANG_ABORT@])
        } else {
            old(res)@.abort
        },
{
    match res.get_package_id_by_name(MOONBITLANG_ABORT) {
        Some(id) => {
            proof {
                lemma_names_valid(*res, MOONBITLANG_ABORT@);
            }
            res.set_abort_pkg(id);
        },
        None => {},
    }
}

/// The module read from its folder must carry the name the registry gave.
pub fn check_module_name(registry: &str, read: &str) -> (r: Result<(), DiscoverError>)
    ensures
        r is Ok <==> registry@ == read@,
        r matches Err(DiscoverError::ModuleNameMismatch { registry: g, read: d }) ==> g@ == registry@ && d@
            == read@,
        r is Err ==> r matches Err(DiscoverError::ModuleNameMismatch { .. }),
{
    if str_eq(registry, read) {
        Ok(())
    } else {
        Err(DiscoverError::ModuleNameMismatch { registry: owned(registry), read: owned(read) })
    }
}

/// Which manifest a package folder is read from.
#[derive(Clone, Copy, Debug, PartialEq, Eq, Structural)]
pub enum PackageManifest {
    /// `moon.pkg`.
    MoonPkg,
    /// `moon.pkg.json`.
    MoonPkgJson,
}

/// What the walk over a module's source tree does with one folder.
#[derive(Clone, Copy, Debug, PartialEq, Eq, Structural)]
pub enum WalkStep {
    /// Leave the folder and everything below it.
    SkipSubtree,
    /// The folder holds no package; its subfolders are still walked.
    NotAPackage,
    /// The folder is a package read from `manifest`; `shadowed_json` says that
    /// a `moon.pkg.json` beside `moon.pkg` is ignored.
    Package { manifest: PackageManifest, shadowed_json: bool },
}

/// The walk's decision for one folder. Below the source root, folders with
/// an ignored name and folders of another module (holding a module
/// manifest) are skipped with their contents. A folder is a package when it
/// holds `moon.pkg` or `moon.pkg.json`; `moon.pkg` wins when both are there.
pub fn package_walk_step(
    is_source_root: bool,
    name_ignored: bool,
    has_module_manifest: bool,
    has_moon_pkg: bool,
    has_moon_pkg_json: bool,
) -> (r: WalkStep)
    ensures
        r is SkipSubtree <==> !is_source_root && (name_ignored || has_module_manifest),
        r is NotAPackage <==> !(r is SkipSubtree) && !has_moon_pkg && !has_moon_pkg_json,
        r matches WalkStep::Package { manifest, shadowed_json } ==> {
            &&& (manifest == PackageManifest::MoonPkg <==> has_moon_pkg)
            &&& (shadowed_json <==> has_moon_pkg && has_moon_pkg_json)
        },
{
    if !is_source_root && (name_ignored || has_module_manifest) {
        WalkStep::SkipSubtree
    } else if has_moon_pkg {
        WalkStep::Package { manifest: PackageManifest::MoonPkg, shadowed_json: has_moon_pkg_json }
    } else if has_moon_pkg_json {
        WalkStep::Package { manifest: PackageManifest::MoonPkgJson, shadowed_json: false }
    } else {
        WalkStep::NotAPackage
    }
}

/// The C stubs a package's manifest declares.
pub open spec fn declared_stubs(c: PackageConfig) -> Seq<String> {
    match c.native_stub {
        Some(v) => v@,
        None => Seq::empty(),
    }
}

/// Whether a declared stub leaves the package folder.
pub open spec fn some_stub_escapes(stubs: Seq<String>) -> bool {
    exists|i: int| 0 <= i < stubs.len() && escapes_parent(relative_normalized(#[trigger] stubs[i]@))
}

/// `stubs[i]` is the first stub that leaves the package folder.
pub open spec fn first_escaping_stub(stubs: Seq<String>, i: int) -> bool {
    &&& 0 <= i < stubs.len()
    &&& escapes_parent(relative_normalized(stubs[i]@))
    &&& forall|j: int| 0 <= j < i ==> !escapes_parent(relative_normalized(#[trigger] stubs[j]@))
}

/// `e` refuses stub `stub` of package `package` in module `module`.
pub open spec fn names_invalid_stub(e: DiscoverError, module: Seq<char>, package: Seq<char>, stub: Seq<char>) -> bool {
    match e {
        DiscoverError::InvalidStubPath { module: m, package: p, path } => m@ == module && p@ == package && path@
            == stub,
        _ => false,
    }
}

/// The package found in folder `root`, at path `package_path` of module
/// `module_name` (id `mid`), from its manifest `config` and the entries of
/// its folder. `c_stub_headers` are the C headers found under the folder and
/// `virtual_mbti_files` the interface files of a virtual package that exist
/// there. Source lists and headers are sorted by path; headers are kept only
/// when the package declares C stubs. A stub that leaves the folder is
/// refused with `InvalidStubPath`, naming the first such stub.
pub fn discover_one_package(
    mid: ModuleId,
    module_name: &str,
    package_path: &str,
    is_stdlib: bool,
    root: &str,
    config: PackageConfig,
    entries: &Vec<PackageDirEntry>,
    c_stub_headers: Vec<String>,
    virtual_mbti_files: Vec<String>,
) -> (r: Result<DiscoveredPackage, DiscoverError>)
    ensures
        r is Ok <==> !some_stub_escapes(declared_stubs(config)),
        r matches Err(e) ==> exists|i: int|
            #[trigger] first_escaping_stub(declared_stubs(config), i) && names_invalid_stub(
                e,
                module_name@,
                package_path@,
                declared_stubs(config)[i]@,
            ),
        r matches Ok(p) ==> {
            &&& p.root_path@ == root@
            &&& p.module == mid
            &&& p.module_name@ == module_name@
            &&& p.package_path@ == package_path@
            &&& !p.is_single_file
            &&& p.raw == config
            &&& p.source_files@ == sorted_files_of_kind(entries@, PackageSourceFileKind::Mbt)
            &&& p.mbt_md_files@ == sorted_files_of_kind(entries@, PackageSourceFileKind::MbtMd)
            &&& p.mbtp_files@ == sorted_files_of_kind(entries@, PackageSourceFileKind::Mbtp)
            &&& p.mbt_lex_files@ == sorted_files_of_kind(entries@, PackageSourceFileKind::Mbl)
            &&& p.mbt_yacc_files@ == sorted_files_of_kind(entries@, PackageSourceFileKind::Mby)
            &&& p.c_stub_files@.len() == declared_stubs(config).len()
            &&& forall|i: int|
                0 <= i < declared_stubs(config).len() ==> #[trigger] p.c_stub_files@[i]@ == placed_under(
                    root@,
                    relative_normalized(declared_stubs(config)[i]@),
                )
            &&& p.c_stub_header_files@ == if declared_stubs(config).len() == 0 {
                Seq::<String>::empty()
            } else {
                path_sort_stable(c_stub_headers@)
            }
            &&& p.virtual_mbti_files == virtual_mbti_files
            &&& p.is_stdlib == is_stdlib
        },
{
    let resolved = match &config.native_stub {
        Some(stubs) => resolve_c_stub_paths(root, stubs),
        None => Ok(Vec::new()),
    };
    let c_stub_files = match resolved {
        Ok(v) => v,
        Err(path) => {
            proof {
                let stubs = declared_stubs(config);
                let i = choose|i: int|
                    0 <= i < stubs.len() && path@ == stubs[i]@ && escapes_parent(
                        relative_normalized(#[trigger] stubs[i]@),
                    ) && forall|j: int| 0 <= j < i ==> !escapes_parent(relative_normalized(#[trigger] stubs[j]@));
                assert(first_escaping_stub(stubs, i));
            }
            return Err(
                DiscoverError::InvalidStubPath {
                    module: owned(module_name),
                    package: owned(package_path),
                    path,
                },
            );
        },
    };
    let files = collect_package_source_files(entries);
    let c_stub_header_files = if c_stub_files.len() == 0 {
        Vec::new()
    } else {
        sort_paths_stable(c_stub_headers)
    };
    Ok(
        DiscoveredPackage {
            root_path: owned(root),
            module: mid,
            module_name: owned(module_name),
            package_path: owned(package_path),
            is_single_file: false,
            raw: config,
            source_files: files.source_files,
            mbt_lex_files: files.mbt_lex_files,
            mbt_yacc_files: files.mbt_yacc_files,
            mbt_md_files: files.mbt_md_files,
            mbtp_files: files.mbtp_files,
            c_stub_files,
            c_stub_header_files,
            virtual_mbti_files,
            is_stdlib,
        },
    )
}

/// The interface file name of a virtual package.
pub const MBTI_USER_WRITTEN: &'static str = "pkg.mbti";

/// The interface files a virtual package may have in its folder `root`:
/// `pkg.mbti`, then the older `<alias>.mbti`, where the alias is the last
/// segment of the package's name `fqn`. Other packages have none.
pub fn virtual_mbti_candidates(root: &str, config: &PackageConfig, fqn: &str) -> (r: Vec<String>)
    ensures
        config.virtual_pkg is None ==> r@.len() == 0,
        config.virtual_pkg is Some ==> r@.len() == 2 && r@[0]@ == path_push(root@, MBTI_USER_WRITTEN@)
            && r@[1]@ == path_push(root@, last_segment(fqn@) + ".mbti"@),
{
    let mut r: Vec<String> = Vec::new();
    if config.virtual_pkg.is_some() {
        r.push(join_path(root, MBTI_USER_WRITTEN));
        let mut old_name = short_alias(&PackageFQN { name: owned(fqn) });
        append_str(&mut old_name, ".mbti");
        r.push(join_path(root, old_name.as_str()));
    }
    r
}

/// Whether discovery warns that package `package_path`, whose full name
/// names a major-version module (`fqn_is_major_version_module`), shares its
/// import path with such a module. Only packages of the root module are
/// warned about, not those of the standard library, of a module without a
/// user name or a module's root package; `v128` of the core module is let
/// through for now.
pub fn warns_major_version_package(
    is_root_module: bool,
    is_stdlib_pkg: bool,
    module_is_core: bool,
    username_is_empty: bool,
    package_path: &str,
    fqn_is_major_version_module: bool,
) -> (r: bool)
    ensures
        r == (is_root_module && !is_stdlib_pkg && !(module_is_core && package_path@ == "v128"@)
            && !username_is_empty && package_path@.len() > 0 && fqn_is_major_version_module),
{
    let allowed_core_v128 = module_is_core && str_eq(package_path, "v128");
    is_root_module && !is_stdlib_pkg && !allowed_core_v128 && !username_is_empty
        && package_path.unicode_len() > 0 && fqn_is_major_version_module
}

/// The warning about package `fqn` (path `package_path`) of module `module`
/// sharing its import path with a major-version module.
pub fn major_version_warning(fqn: &str, module: &str, package_path: &str) -> (r: String)
    ensures
        r@ == "Package `"@ + fqn@ + "` in module `"@ + module@
            + "` has the same import path as a major-version module. Consider renaming package `"@
            + package_path@ + "` to avoid ambiguity."@,
{
    let mut r = owned("Package `");
    append_str(&mut r, fqn);
    append_str(&mut r, "` in module `");
    append_str(&mut r, module);
    append_str(&mut r, "` has the same import path as a major-version module. Consider renaming package `");
    append_str(&mut r, package_path);
    append_str(&mut r, "` to avoid ambiguity.");
    r
}

} // verus!
