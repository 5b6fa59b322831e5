//! The files each build target of a package compiles: the package's file
//! set, split by test kind under conditional compilation, and the inputs,
//! warnings and interface checks of one target.

use vstd::prelude::*;

use crate::build_lower::compiler::args::opt_view;
use crate::build_plan::prebuild::cat_opt;
use crate::cond_comp::{
    classifiable, classified, classify_files, distinct_names, full_file_test_kind, get_file_test_kind_full,
    FileTestKind,
};
use crate::discover::model::{package_name, DiscoveredPackage};
use crate::discover::package_files::PackageSourceFileKind;
use crate::model::{BuildTarget, PackageId, RunMode, TargetBackend, TargetKind};
use crate::path::{file_name, path_file_name};
use crate::path_set::{sort_dedup_paths, sorted_dedup};
use crate::text::{append_str, owned};

verus! {

/// The files of a package by how its targets use them, each list sorted by
/// path with no path twice.
#[derive(Clone, Debug)]
pub struct PackageFileSet {
    /// Sources compiled into every target but the blackbox test.
    pub no_test_files: Vec<String>,
    /// Whitebox tests.
    pub whitebox_files: Vec<String>,
    /// Blackbox tests, with Markdown sources.
    pub blackbox_files: Vec<String>,
    /// Proof files.
    pub mbtp_files: Vec<String>,
}

/// The text of each string.
pub open spec fn views(s: Seq<String>) -> Seq<Seq<char>> {
    s.map_values(|x: String| x@)
}

/// The prebuild outputs of kind `k`, in order.
pub open spec fn outputs_of_kind(
    outputs: Seq<(String, Option<PackageSourceFileKind>)>,
    k: PackageSourceFileKind,
) -> Seq<String>
    decreases outputs.len(),
{
    if outputs.len() == 0 {
        Seq::empty()
    } else {
        let rest = outputs_of_kind(outputs.drop_last(), k);
        if outputs.last().1 == Some(k) {
            rest.push(outputs.last().0)
        } else {
            rest
        }
    }
}

/// The sources that conditional compilation sorts: the package's own `.mbt`
/// files (none for a standalone `.mbtx` script), then the generated `.mbt`
/// outputs.
pub open spec fn classification_input(
    pkg: DiscoveredPackage,
    mbtx: bool,
    outputs: Seq<(String, Option<PackageSourceFileKind>)>,
) -> Seq<String> {
    (if mbtx {
        Seq::empty()
    } else {
        pkg.source_files@
    }) + outputs_of_kind(outputs, PackageSourceFileKind::Mbt)
}

/// The classified files of test kind `k`, in order.
pub open spec fn of_test_kind(cl: Seq<(Seq<char>, FileTestKind)>, k: FileTestKind) -> Seq<Seq<char>>
    decreases cl.len(),
{
    if cl.len() == 0 {
        Seq::empty()
    } else {
        let rest = of_test_kind(cl.drop_last(), k);
        if cl.last().1 == k {
            rest.push(cl.last().0)
        } else {
            rest
        }
    }
}

/// `r` is the sorted set of the paths `cands`, each path represented by its
/// first occurrence.
pub open spec fn sorted_set_of(r: Seq<String>, cands: Seq<Seq<char>>) -> bool {
    exists|c: Seq<String>| views(c) == cands && #[trigger] sorted_dedup(r, c)
}

/// Appends `src`.
fn push_all(dst: &mut Vec<String>, src: &Vec<String>)
    ensures
        final(dst)@ == old(dst)@ + src@,
{
    let ghost start = dst@;
    let mut i: usize = 0;
    while i < src.len()
        invariant
            i <= src.len(),
            dst@ == start + src@.take(i as int),
        decreases src.len() - i,
    {
        dst.push(src[i].clone());
        proof {
            assert(src@.take(i + 1) =~= src@.take(i as int).push(src@[i as int]));
        }
        i = i + 1;
    }
    assert(src@.take(src@.len() as int) =~= src@);
}

/// Appends the outputs of kind `k`.
fn push_outputs_of_kind(
    dst: &mut Vec<String>,
    outputs: &Vec<(String, Option<PackageSourceFileKind>)>,
    k: PackageSourceFileKind,
)
    ensures
        final(dst)@ == old(dst)@ + outputs_of_kind(outputs@, k),
{
    let ghost start = dst@;
    let mut i: usize = 0;
    while i < outputs.len()
        invariant
            i <= outputs.len(),
            dst@ == start + outputs_of_kind(outputs@.take(i as int), k),
        decreases outputs.len() - i,
    {
        proof {
            assert(outputs@.take(i + 1).drop_last() =~= outputs@.take(i as int));
            assert(outputs@.take(i + 1).last() == outputs@[i as int]);
        }
        let matches = match outputs[i].1 {
            Some(kind) => kind == k,
            None => false,
        };
        if matches {
            dst.push(outputs[i].0.clone());
            proof {
                assert(dst@ =~= start + outputs_of_kind(outputs@.take(i + 1), k));
            }
        }
        i = i + 1;
    }
    assert(outputs@.take(outputs@.len() as int) =~= outputs@);
}

/// The classified files as text and kind.
pub open spec fn cl_view(r: Seq<(String, FileTestKind)>) -> Seq<(Seq<char>, FileTestKind)> {
    r.map_values(|x: (String, FileTestKind)| (x.0@, x.1))
}

/// Appends the classified files of test kind `k`.
fn push_of_test_kind(dst: &mut Vec<String>, cl: &Vec<(String, FileTestKind)>, k: FileTestKind)
    ensures
        views(final(dst)@) == views(old(dst)@) + of_test_kind(cl_view(cl@), k),
{
    let ghost start = views(dst@);
    let mut i: usize = 0;
    while i < cl.len()
        invariant
            i <= cl.len(),
            views(dst@) == start + of_test_kind(cl_view(cl@.take(i as int)), k),
        decreases cl.len() - i,
    {
        proof {
            assert(cl_view(cl@.take(i + 1)).drop_last() =~= cl_view(cl@.take(i as int)));
            assert(cl_view(cl@.take(i + 1)).last() == (cl@[i as int].0@, cl@[i as int].1));
        }
        if cl[i].1 == k {
            let ghost before = dst@;
            dst.push(cl[i].0.clone());
            proof {
                assert(views(dst@) =~= views(before).push(cl@[i as int].0@));
            }
        }
        i = i + 1;
    }
    assert(cl@.take(cl@.len() as int) =~= cl@);
}

/// The file set of package `pkg` for `backend`. Its own `.mbt` sources (none
/// for a standalone `.mbtx` script, whose sources are all non-test files)
/// and the generated `.mbt` outputs among `outputs` are sorted by
/// conditional compilation (`conditions` holds each file name the package
/// states a condition for, evaluated); Markdown sources, the package's and
/// generated ones, are blackbox inputs; proof files are the package's and
/// the generated ones. Each list is sorted by path with repeats dropped.
pub fn collect_package_file_set(
    pkg: &DiscoveredPackage,
    is_mbtx_single_file: bool,
    outputs: &Vec<(String, Option<PackageSourceFileKind>)>,
    conditions: &Vec<(String, bool)>,
    backend: TargetBackend,
) -> (r: PackageFileSet)
    requires
        distinct_names(conditions@),
        classifiable(classification_input(*pkg, is_mbtx_single_file, outputs@), conditions@),
    ensures
        ({
            let cl = classified(classification_input(*pkg, is_mbtx_single_file, outputs@), conditions@, backend);
            &&& sorted_set_of(
                r.no_test_files@,
                (if is_mbtx_single_file {
                    views(pkg.source_files@)
                } else {
                    Seq::empty()
                }) + of_test_kind(cl, FileTestKind::NoTest),
            )
            &&& sorted_set_of(r.whitebox_files@, of_test_kind(cl, FileTestKind::Whitebox))
            &&& sorted_set_of(
                r.blackbox_files@,
                of_test_kind(cl, FileTestKind::Blackbox) + views(
                    pkg.mbt_md_files@ + outputs_of_kind(outputs@, PackageSourceFileKind::MbtMd),
                ),
            )
            &&& sorted_set_of(
                r.mbtp_files@,
                views(pkg.mbtp_files@ + outputs_of_kind(outputs@, PackageSourceFileKind::Mbtp)),
            )
        }),
{
    let mut input: Vec<String> = Vec::new();
    if !is_mbtx_single_file {
        push_all(&mut input, &pkg.source_files);
    }
    push_outputs_of_kind(&mut input, outputs, PackageSourceFileKind::Mbt);
    proof {
        if is_mbtx_single_file {
            assert(input@ =~= classification_input(*pkg, is_mbtx_single_file, outputs@));
        } else {
            assert(input@ == classification_input(*pkg, is_mbtx_single_file, outputs@));
        }
    }
    let cl = classify_files(&input, conditions, backend);
    let ghost spec_cl = classified(classification_input(*pkg, is_mbtx_single_file, outputs@), conditions@, backend);
    assert(cl_view(cl@) =~= spec_cl);

    let mut no_test: Vec<String> = Vec::new();
    if is_mbtx_single_file {
        push_all(&mut no_test, &pkg.source_files);
    }
    let ghost head = views(no_test@);
    push_of_test_kind(&mut no_test, &cl, FileTestKind::NoTest);
    proof {
        if is_mbtx_single_file {
            assert(head == views(pkg.source_files@));
        } else {
            assert(head =~= Seq::<Seq<char>>::empty());
        }
    }

    let mut whitebox: Vec<String> = Vec::new();
    push_of_test_kind(&mut whitebox, &cl, FileTestKind::Whitebox);
    assert(views(Seq::<String>::empty()) =~= Seq::<Seq<char>>::empty());

    let mut blackbox: Vec<String> = Vec::new();
    push_of_test_kind(&mut blackbox, &cl, FileTestKind::Blackbox);
    let ghost bb_head = blackbox@;
    let mut md: Vec<String> = Vec::new();
    push_all(&mut md, &pkg.mbt_md_files);
    push_outputs_of_kind(&mut md, outputs, PackageSourceFileKind::MbtMd);
    push_all(&mut blackbox, &md);
    proof {
        assert(Seq::<String>::empty() + pkg.mbt_md_files@ =~= pkg.mbt_md_files@);
        assert(views(bb_head + md@) =~= views(bb_head) + views(md@));
    }

    let mut mbtp: Vec<String> = Vec::new();
    push_all(&mut mbtp, &pkg.mbtp_files);
    push_outputs_of_kind(&mut mbtp, outputs, PackageSourceFileKind::Mbtp);
    assert(Seq::<String>::empty() + pkg.mbtp_files@ =~= pkg.mbtp_files@);

    let no_test_files = sort_dedup_paths(&no_test);
    let whitebox_files = sort_dedup_paths(&whitebox);
    let blackbox_files = sort_dedup_paths(&blackbox);
    let mbtp_files = sort_dedup_paths(&mbtp);
    PackageFileSet { no_test_files, whitebox_files, blackbox_files, mbtp_files }
}

/// The parts of a build's input directive that concern single targets.
#[derive(Clone, Debug)]
pub struct InputDirective {
    /// The package whose interface file is not emitted.
    pub specify_no_mi_for: Option<PackageId>,
    /// A patch file applied when compiling one target.
    pub specify_patch_file: Option<(BuildTarget, String)>,
    /// The Why3 configuration for proofs.
    pub prove_why3_config: Option<String>,
    /// The prelude for proofs.
    pub proof_prelude: Option<String>,
    /// The package whose values are traced.
    pub value_tracing: Option<PackageId>,
}

/// What compiling one build target needs to know.
#[derive(Clone, Debug)]
pub struct BuildTargetInfo {
    pub regular_files: Vec<String>,
    pub mbtp_files: Vec<String>,
    pub whitebox_files: Vec<String>,
    pub doctest_files: Vec<String>,
    pub warn_list: Option<String>,
    pub specified_no_mi: bool,
    pub patch_file: Option<String>,
    pub why3_config: Option<String>,
    pub proof_prelude: Option<String>,
    /// The target whose interface this target's interface is checked
    /// against.
    pub check_mi_against: Option<BuildTarget>,
    pub value_tracing: bool,
}

/// The warnings silenced for packages that carry proofs, outside checking
/// and proving.
pub const PROOF_ENABLED_WARN_SUPPRESSIONS: &'static str = "-1-2-3-29";

/// Whether a run compiles proof files: checking and proving do.
pub open spec fn uses_mbtp(action: RunMode) -> bool {
    action == RunMode::Check || action == RunMode::Prove
}

/// Two optional texts, concatenated.
pub open spec fn cat_spec(x: Option<Seq<char>>, y: Option<Seq<char>>) -> Option<Seq<char>> {
    match (x, y) {
        (Some(a), Some(b)) => Some(a + b),
        (Some(a), None) => Some(a),
        (None, Some(b)) => Some(b),
        (None, None) => None,
    }
}

/// The warning list of a target: the module's, then the package's (with the
/// proof suppressions for a package with proofs, outside checking and
/// proving), then the command line's.
pub open spec fn target_warn_list(
    module_warn_list: Option<Seq<char>>,
    package_warn_list: Option<Seq<char>>,
    proof_enabled: bool,
    action: RunMode,
    cli_warn_list: Option<Seq<char>>,
) -> Option<Seq<char>> {
    let proof = if proof_enabled && !uses_mbtp(action) {
        Some(PROOF_ENABLED_WARN_SUPPRESSIONS@)
    } else {
        None
    };
    cat_spec(cat_spec(module_warn_list, cat_spec(package_warn_list, proof)), cli_warn_list)
}

/// The target whose interface the interface of `target` is checked against:
/// a virtual package with a default implementation checks against its own
/// declaration, a package implementing a virtual package (`implements`)
/// against that package; only source targets are checked.
pub open spec fn mi_check_of(target: BuildTarget, pkg: DiscoveredPackage, implements: Option<PackageId>) -> Option<
    BuildTarget,
> {
    if target.kind == TargetKind::Source {
        if pkg.raw.virtual_pkg is Some {
            Some(BuildTarget { package: target.package, kind: TargetKind::Source })
        } else {
            match implements {
                Some(p) => Some(BuildTarget { package: p, kind: TargetKind::Source }),
                None => None,
            }
        }
    } else {
        None
    }
}

/// The target against whose interface `target`'s interface is checked.
pub fn mi_check_target(target: BuildTarget, pkg: &DiscoveredPackage, implements: Option<PackageId>) -> (r: Option<
    BuildTarget,
>)
    requires
        target.kind == TargetKind::Source ==> pkg.raw.virtual_pkg != Some(false),
    ensures
        r == mi_check_of(target, *pkg, implements),
{
    if target.kind == TargetKind::Source {
        if pkg.raw.virtual_pkg.is_some() {
            Some(BuildTarget { package: target.package, kind: TargetKind::Source })
        } else {
            match implements {
                Some(p) => Some(BuildTarget { package: p, kind: TargetKind::Source }),
                None => None,
            }
        }
    } else {
        None
    }
}

/// A copy of `v`.
fn copy_strings(v: &Vec<String>) -> (r: Vec<String>)
    ensures
        r@ == v@,
{
    let mut r: Vec<String> = Vec::new();
    push_all(&mut r, v);
    assert(Seq::<String>::empty() + v@ =~= v@);
    r
}

/// A copy of an optional text.
fn copy_opt(x: &Option<String>) -> (r: Option<String>)
    ensures
        r == *x,
{
    match x {
        Some(s) => Some(s.clone()),
        None => None,
    }
}

/// The input files of `target` from its package's file set: sources and
/// (when checking or proving) proof files for a source, sub-package or
/// inline-test target, with the whitebox tests for a whitebox test; the
/// blackbox tests for a blackbox test, which takes the sources as doctests.
pub open spec fn target_inputs(kind: TargetKind, set: PackageFileSet, action: RunMode) -> (
    Seq<String>,
    Seq<String>,
    Seq<String>,
    Seq<String>,
) {
    let mbtp = if uses_mbtp(action) {
        set.mbtp_files@
    } else {
        Seq::empty()
    };
    match kind {
        TargetKind::Source | TargetKind::SubPackage | TargetKind::InlineTest => (
            set.no_test_files@,
            mbtp,
            Seq::empty(),
            Seq::empty(),
        ),
        TargetKind::WhiteboxTest => (set.no_test_files@, mbtp, set.whitebox_files@, Seq::empty()),
        TargetKind::BlackboxTest => (set.blackbox_files@, Seq::empty(), Seq::empty(), set.no_test_files@),
    }
}

/// What compiling `target` of package `pkg` needs: its inputs from the
/// package's file set `file_set`, its warning list (from the module's
/// `module_warn_list`, the package's and the command line's
/// `cli_warn_list`), and what the input directive says of it; `implements`
/// is the virtual package that the package implements, if any.
pub fn resolve_mbt_files_for_node(
    target: BuildTarget,
    action: RunMode,
    file_set: &PackageFileSet,
    pkg: &DiscoveredPackage,
    implements: Option<PackageId>,
    module_warn_list: &Option<String>,
    cli_warn_list: &Option<String>,
    directive: &InputDirective,
) -> (r: BuildTargetInfo)
    requires
        target.kind == TargetKind::Source ==> pkg.raw.virtual_pkg != Some(false),
    ensures
        (r.regular_files@, r.mbtp_files@, r.whitebox_files@, r.doctest_files@) == target_inputs(
            target.kind,
            *file_set,
            action,
        ),
        opt_view(r.warn_list) == target_warn_list(
            opt_view(*module_warn_list),
            opt_view(pkg.raw.warn_list),
            pkg.raw.proof_enabled,
            action,
            opt_view(*cli_warn_list),
        ),
        r.specified_no_mi == (directive.specify_no_mi_for == Some(target.package)),
        r.patch_file == match directive.specify_patch_file {
            Some((t, p)) => if t == target {
                Some(p)
            } else {
                None
            },
            None => None,
        },
        r.why3_config == directive.prove_why3_config,
        r.proof_prelude == directive.proof_prelude,
        r.check_mi_against == mi_check_of(target, *pkg, implements),
        r.value_tracing == (directive.value_tracing == Some(target.package)),
{
    let with_mbtp = match action {
        RunMode::Check | RunMode::Prove => true,
        _ => false,
    };
    let mbtp = if with_mbtp {
        copy_strings(&file_set.mbtp_files)
    } else {
        Vec::new()
    };
    let (regular_files, mbtp_files, whitebox_files, doctest_files) = match target.kind {
        TargetKind::Source | TargetKind::SubPackage | TargetKind::InlineTest => (
            copy_strings(&file_set.no_test_files),
            mbtp,
            Vec::new(),
            Vec::new(),
        ),
        TargetKind::WhiteboxTest => (
            copy_strings(&file_set.no_test_files),
            mbtp,
            copy_strings(&file_set.whitebox_files),
            Vec::new(),
        ),
        TargetKind::BlackboxTest => (
            copy_strings(&file_set.blackbox_files),
            Vec::new(),
            Vec::new(),
            copy_strings(&file_set.no_test_files),
        ),
    };
    let proof_warn_list: Option<&str> = if pkg.raw.proof_enabled && !with_mbtp {
        Some(PROOF_ENABLED_WARN_SUPPRESSIONS)
    } else {
        None
    };
    let package_warn_list = cat_opt(copy_opt(&pkg.raw.warn_list), proof_warn_list);
    let inner = match &package_warn_list {
        Some(s) => cat_opt(copy_opt(module_warn_list), Some(s.as_str())),
        None => cat_opt(copy_opt(module_warn_list), None),
    };
    let warn_list = match cli_warn_list {
        Some(s) => cat_opt(inner, Some(s.as_str())),
        None => cat_opt(inner, None),
    };
    let specified_no_mi = match directive.specify_no_mi_for {
        Some(p) => p == target.package,
        None => false,
    };
    let patch_file = match &directive.specify_patch_file {
        Some((t, p)) => if *t == target {
            Some(p.clone())
        } else {
            None
        },
        None => None,
    };
    let value_tracing = match directive.value_tracing {
        Some(p) => p == target.package,
        None => false,
    };
    BuildTargetInfo {
        regular_files,
        mbtp_files,
        whitebox_files,
        doctest_files,
        warn_list,
        specified_no_mi,
        patch_file,
        why3_config: copy_opt(&directive.prove_why3_config),
        proof_prelude: copy_opt(&directive.proof_prelude),
        check_mi_against: mi_check_target(target, pkg, implements),
        value_tracing,
    }
}

/// A regular input that is a blackbox test source: a `.mbt` file whose name
/// marks a blackbox test.
pub open spec fn blackbox_mbt_input(f: (String, Option<PackageSourceFileKind>)) -> bool {
    &&& f.1 == Some(PackageSourceFileKind::Mbt)
    &&& file_name(f.0@) is Some
    &&& full_file_test_kind(file_name(f.0@).unwrap()) == FileTestKind::Blackbox
}

/// A regular input that is a Markdown source.
pub open spec fn markdown_input(f: (String, Option<PackageSourceFileKind>)) -> bool {
    f.1 == Some(PackageSourceFileKind::MbtMd) && file_name(f.0@) is Some
}

/// The blackbox-only inputs named in the warning, in order.
pub open spec fn blackbox_input_names(files: Seq<(String, Option<PackageSourceFileKind>)>) -> Seq<char> {
    let tests = exists|i: int| 0 <= i < files.len() && blackbox_mbt_input(#[trigger] files[i]);
    let docs = exists|i: int| 0 <= i < files.len() && markdown_input(#[trigger] files[i]);
    if tests && docs {
        "`_test.mbt` files, `.mbt.md` files"@
    } else if tests {
        "`_test.mbt` files"@
    } else {
        "`.mbt.md` files"@
    }
}

/// The warning for a main package `pkg` whose regular inputs `files` (each
/// with the kind its name denotes) include blackbox-only inputs; none for
/// other packages or when there are no such inputs.
pub fn main_package_blackbox_warning(pkg: &DiscoveredPackage, files: &Vec<(String, Option<PackageSourceFileKind>)>) -> (r:
    Option<String>)
    ensures
        r is Some <==> pkg.raw.is_main && exists|i: int|
            0 <= i < files@.len() && (blackbox_mbt_input(#[trigger] files@[i]) || markdown_input(files@[i])),
        r matches Some(m) ==> m@ == "Main package `"@ + package_name(*pkg) + "` uses blackbox-only test inputs ("@
            + blackbox_input_names(files@) + ") in package directory \""@ + pkg.root_path@
            + "\". Main packages will stop generating blackbox tests in a future release. Move public behavior into a non-main package and keep the main package as an entrypoint."@,
{
    if !pkg.raw.is_main {
        return None;
    }
    let mut tests = false;
    let mut docs = false;
    let mut i: usize = 0;
    while i < files.len()
        invariant
            i <= files.len(),
            tests == exists|j: int| 0 <= j < i && blackbox_mbt_input(#[trigger] files@[j]),
            docs == exists|j: int| 0 <= j < i && markdown_input(#[trigger] files@[j]),
        decreases files.len() - i,
    {
        let name = path_file_name(files[i].0.as_str());
        match name {
            Some(n) => {
                match files[i].1 {
                    Some(PackageSourceFileKind::Mbt) => {
                        if get_file_test_kind_full(n.as_str()) == FileTestKind::Blackbox {
                            tests = true;
                        }
                    },
                    Some(PackageSourceFileKind::MbtMd) => {
                        docs = true;
                    },
                    _ => {},
                }
            },
            None => {},
        }
        proof {
            assert(files@[i as int] == files[i as int]);
        }
        i = i + 1;
    }
    if !tests && !docs {
        return None;
    }
    let mut m = owned("Main package `");
    append_str(&mut m, pkg.fqn().name.as_str());
    append_str(&mut m, "` uses blackbox-only test inputs (");
    if tests && docs {
        append_str(&mut m, "`_test.mbt` files, `.mbt.md` files");
    } else if tests {
        append_str(&mut m, "`_test.mbt` files");
    } else {
        append_str(&mut m, "`.mbt.md` files");
    }
    append_str(&mut m, ") in package directory \"");
    append_str(&mut m, pkg.root_path.as_str());
    append_str(
        &mut m,
        "\". Main packages will stop generating blackbox tests in a future release. Move public behavior into a non-main package and keep the main package as an entrypoint.",
    );
    Some(m)
}

} // verus!
