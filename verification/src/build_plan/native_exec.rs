//! Planning the native toolchain steps: the action that turns a linked core
//! into an executable, and the compiler flags of a package's C stubs.

use vstd::prelude::*;

use super::artifact::ArtifactKey;
use super::prebuild::{should_generate_llvm_dsym, BuildPlanConstructError};
use crate::build_lower::compiler::args::opt_view;
use crate::build_lower::compiler::PackageFQN;
use crate::model::{BuildTarget, OperatingSystem, PackageId, TargetBackend};

verus! {

/// The words of `s` under POSIX shell splitting, as `shlex::split` gives
/// them; `None` when `s` is malformed (an unterminated quote or a trailing
/// escape).
pub uninterp spec fn shell_words(s: Seq<char>) -> Option<Seq<Seq<char>>>;

/// The words of a split, by their views.
pub open spec fn opt_words(r: Option<Vec<String>>) -> Option<Seq<Seq<char>>> {
    match r {
        Some(v) => Some(v.deep_view()),
        None => None,
    }
}

/// Splits `s` into words as a POSIX shell would.
///
/// Trusted: calls `shlex::split`, which runs the `Shlex` word iterator to the
/// end and gives `None` when it met an error. The words are a function of
/// `s`; they are named, not restated.
#[verifier::external_body]
fn shell_split(s: &str) -> (r: Option<Vec<String>>)
    ensures
        opt_words(r) == shell_words(s@),
{
    shlex::split(s)
}

/// The words of an optional flag string: none when it is absent, `None` when
/// it is malformed.
pub open spec fn flag_words(flags: Option<Seq<char>>) -> Option<Seq<Seq<char>>> {
    match flags {
        Some(s) => shell_words(s),
        None => Some(Seq::empty()),
    }
}

/// Splits an optional flag string into its words.
pub fn split_flags(flags: &Option<String>) -> (r: Option<Vec<String>>)
    ensures
        opt_words(r) == flag_words(opt_view(*flags)),
{
    match flags {
        Some(s) => shell_split(s.as_str()),
        None => {
            let v: Vec<String> = Vec::new();
            assert(v.deep_view() =~= Seq::<Seq<char>>::empty());
            Some(v)
        },
    }
}

/// The native steps of an executable: what its make-executable action
/// needs, the C stub libraries it links, the C compiler and its flags, the
/// packages whose link configuration applies, and, when a debug-symbol
/// bundle is made, the artifact that bundle needs.
#[derive(Debug)]
pub struct MakeExecutablePlan {
    pub required: Vec<ArtifactKey>,
    pub link_c_stubs: Vec<PackageId>,
    pub cc: Option<String>,
    pub c_flags: Vec<String>,
    pub link_flags: Vec<String>,
    pub link_packages: Vec<PackageId>,
    pub dsym_requires: Option<ArtifactKey>,
}

/// What the make-executable action of `target` needs: its linked core, the
/// library of each C stub package, then the runtime library.
pub open spec fn make_executable_needs(target: BuildTarget, stubs: Seq<PackageId>) -> Seq<ArtifactKey> {
    seq![ArtifactKey::LinkedCore { package: target.package, target_kind: target.kind }] + Seq::new(
        stubs.len(),
        |i: int| ArtifactKey::CStubLibrary { package: stubs[i] },
    ) + seq![ArtifactKey::RuntimeLibrary]
}

/// The packages whose link configuration applies to an executable: those of
/// its linked cores, in order, and its own package when it is not among them.
pub open spec fn link_package_ids(deps: Seq<BuildTarget>, target: BuildTarget) -> Seq<PackageId> {
    let ids = Seq::new(deps.len(), |i: int| deps[i].package);
    if ids.contains(target.package) {
        ids
    } else {
        ids.push(target.package)
    }
}

/// Whether a debug-symbol bundle is made: on LLVM, with debug symbols on
/// macOS; on the native backend, as its toolchain decides.
pub open spec fn makes_dsym(backend: TargetBackend, debug_symbols: bool, os: OperatingSystem, native_dsym: bool) -> bool {
    if backend == TargetBackend::LLVM {
        debug_symbols && os == OperatingSystem::MacOS
    } else {
        native_dsym
    }
}

/// Plans the native action that turns the linked core of `target` (package
/// `package`) into an executable. `link_core_deps` are the targets linked
/// into the core and `c_stub_deps` the packages whose C stubs are linked;
/// `cc`, `cc_flags` and `cc_link_flags` are the package's native link
/// settings, build variables already substituted; `native_dsym` is the
/// native toolchain's decision on a debug-symbol bundle. Malformed compiler
/// flags, then malformed link flags, are refused.
pub fn plan_native_executable(
    package: PackageFQN,
    target: BuildTarget,
    link_core_deps: Vec<BuildTarget>,
    c_stub_deps: Vec<PackageId>,
    cc: Option<String>,
    cc_flags: Option<String>,
    cc_link_flags: Option<String>,
    backend: TargetBackend,
    debug_symbols: bool,
    os: OperatingSystem,
    native_dsym: bool,
) -> (r: Result<MakeExecutablePlan, BuildPlanConstructError>)
    requires
        backend == TargetBackend::Native || backend == TargetBackend::LLVM,
    ensures
        flag_words(opt_view(cc_flags)) is None ==> (r matches Err(
            BuildPlanConstructError::MalformedCCFlags { package: p },
        ) && p == package),
        flag_words(opt_view(cc_flags)) is Some && flag_words(opt_view(cc_link_flags)) is None ==> (r matches Err(
            BuildPlanConstructError::MalformedCCLinkFlags { package: p },
        ) && p == package),
        r is Ok <==> flag_words(opt_view(cc_flags)) is Some && flag_words(opt_view(cc_link_flags)) is Some,
        r matches Ok(plan) ==> {
            &&& plan.required@ == make_executable_needs(target, c_stub_deps@)
            &&& plan.link_c_stubs@ == c_stub_deps@
            &&& plan.cc == cc
            &&& Some(plan.c_flags.deep_view()) == flag_words(opt_view(cc_flags))
            &&& Some(plan.link_flags.deep_view()) == flag_words(opt_view(cc_link_flags))
            &&& plan.link_packages@ == link_package_ids(link_core_deps@, target)
            &&& plan.dsym_requires == if makes_dsym(backend, debug_symbols, os, native_dsym) {
                Some(ArtifactKey::Executable { package: target.package, target_kind: target.kind })
            } else {
                None
            }
        },
{
    let c_flags = match split_flags(&cc_flags) {
        Some(v) => v,
        None => {
            return Err(BuildPlanConstructError::MalformedCCFlags { package });
        },
    };
    let link_flags = match split_flags(&cc_link_flags) {
        Some(v) => v,
        None => {
            return Err(BuildPlanConstructError::MalformedCCLinkFlags { package });
        },
    };
    let mut required: Vec<ArtifactKey> = Vec::new();
    required.push(ArtifactKey::LinkedCore { package: target.package, target_kind: target.kind });
    let mut i: usize = 0;
    while i < c_stub_deps.len()
        invariant
            i <= c_stub_deps.len(),
            required@ == seq![ArtifactKey::LinkedCore { package: target.package, target_kind: target.kind }]
                + Seq::new(i as nat, |j: int| ArtifactKey::CStubLibrary { package: c_stub_deps@[j] }),
        decreases c_stub_deps.len() - i,
    {
        required.push(ArtifactKey::CStubLibrary { package: c_stub_deps[i] });
        assert(required@ =~= seq![ArtifactKey::LinkedCore { package: target.package, target_kind: target.kind }]
            + Seq::new((i + 1) as nat, |j: int| ArtifactKey::CStubLibrary { package: c_stub_deps@[j] }));
        i = i + 1;
    }
    required.push(ArtifactKey::RuntimeLibrary);
    assert(required@ =~= make_executable_needs(target, c_stub_deps@));
    let mut link_packages: Vec<PackageId> = Vec::new();
    let mut found = false;
    let mut k: usize = 0;
    while k < link_core_deps.len()
        invariant
            k <= link_core_deps.len(),
            link_packages@ == Seq::new(k as nat, |j: int| link_core_deps@[j].package),
            found <==> link_packages@.contains(target.package),
        decreases link_core_deps.len() - k,
    {
        let p = link_core_deps[k].package;
        let ghost before = link_packages@;
        link_packages.push(p);
        assert(link_packages@ =~= Seq::new((k + 1) as nat, |j: int| link_core_deps@[j].package));
        if p == target.package {
            found = true;
            assert(link_packages@[k as int] == target.package);
        } else {
            assert forall|x: PackageId| link_packages@.contains(x) == (before.contains(x) || x == p) by {
                if link_packages@.contains(x) {
                    let q = choose|q: int| 0 <= q < link_packages@.len() && link_packages@[q] == x;
                    if q < k {
                        assert(before[q] == x);
                    }
                }
                if before.contains(x) {
                    let q = choose|q: int| 0 <= q < before.len() && before[q] == x;
                    assert(link_packages@[q] == x);
                }
                if x == p {
                    assert(link_packages@[k as int] == x);
                }
            }
        }
        k = k + 1;
    }
    if !found {
        link_packages.push(target.package);
    }
    let generate_dsym = match backend {
        TargetBackend::LLVM => should_generate_llvm_dsym(debug_symbols, os),
        _ => native_dsym,
    };
    let dsym_requires = if generate_dsym {
        Some(ArtifactKey::Executable { package: target.package, target_kind: target.kind })
    } else {
        None
    };
    Ok(
        MakeExecutablePlan {
            required,
            link_c_stubs: c_stub_deps,
            cc,
            c_flags,
            link_flags,
            link_packages,
            dsym_requires,
        },
    )
}

/// The C compiler and its flags for a package's C stubs.
#[derive(Debug)]
pub struct CStubFlags {
    pub stub_cc: Option<String>,
    pub cc_flags: Vec<String>,
    pub link_flags: Vec<String>,
}

/// The compiler settings of the C stubs of package `package`, from its
/// native link settings (build variables already substituted): malformed
/// compiler flags, then malformed link flags, are refused.
pub fn plan_c_stub_flags(
    package: PackageFQN,
    stub_cc: Option<String>,
    stub_cc_flags: Option<String>,
    stub_cc_link_flags: Option<String>,
) -> (r: Result<CStubFlags, BuildPlanConstructError>)
    ensures
        flag_words(opt_view(stub_cc_flags)) is None ==> (r matches Err(
            BuildPlanConstructError::MalformedStubCCFlags { package: p },
        ) && p == package),
        flag_words(opt_view(stub_cc_flags)) is Some && flag_words(opt_view(stub_cc_link_flags)) is None ==> (r matches Err(
            BuildPlanConstructError::MalformedStubCCLinkFlags { package: p },
        ) && p == package),
        r is Ok <==> flag_words(opt_view(stub_cc_flags)) is Some && flag_words(opt_view(stub_cc_link_flags)) is Some,
        r matches Ok(f) ==> {
            &&& f.stub_cc == stub_cc
            &&& Some(f.cc_flags.deep_view()) == flag_words(opt_view(stub_cc_flags))
            &&& Some(f.link_flags.deep_view()) == flag_words(opt_view(stub_cc_link_flags))
        },
{
    let cc_flags = match split_flags(&stub_cc_flags) {
        Some(v) => v,
        None => {
            return Err(BuildPlanConstructError::MalformedStubCCFlags { package });
        },
    };
    let link_flags = match split_flags(&stub_cc_link_flags) {
        Some(v) => v,
        None => {
            return Err(BuildPlanConstructError::MalformedStubCCLinkFlags { package });
        },
    };
    Ok(CStubFlags { stub_cc, cc_flags, link_flags })
}

} // verus!
