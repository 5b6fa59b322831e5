//! Logical identities of build results.

use vstd::prelude::*;

use crate::model::{BuildTarget, ModuleId, PackageId, TargetKind};
use crate::path::{
    file_name, join_path, path_components, path_equal, path_file_name, path_key, strip_prefix,
    strip_prefix_components, render_components, components, comps_view, ComponentView,
    PathComponent, path_push,
};
use crate::text::{owned, str_eq};

verus! {

/// The identity of a path (its components).
pub type PathKey = Seq<ComponentView>;

/// Normalize a package file declaration without retaining the package's
/// physical root. Explicit paths outside the package remain as given because
/// the declaration itself has no package-relative identity.
pub fn package_file_key(package_root: &str, path: &str) -> (r: String)
    ensures
        match strip_prefix_components(path@, package_root@) {
            Some(rest) => r@ == render_components(rest),
            None => r@ == path@,
        },
{
    match strip_prefix(path, package_root) {
        Some(s) => s,
        None => owned(path),
    }
}

/// The identity of a runtime translation unit within the toolchain layout:
/// `runtime/<file>` for a file directly under a `runtime` directory, else the
/// bare file name.
pub open spec fn spec_runtime_source_key(path: Seq<char>) -> Seq<char> {
    let c = path_components(path);
    let name = file_name(path)->Some_0;
    if c.len() >= 2 && c[c.len() - 2] == ComponentView::Normal("runtime"@) {
        path_push("runtime"@, name)
    } else {
        name
    }
}

/// Identify a runtime translation unit within the stable toolchain layout.
pub fn runtime_source_key(path: &str) -> (r: String)
    requires
        file_name(path@) is Some,
    ensures
        r@ == spec_runtime_source_key(path@),
{
    let name = match path_file_name(path) {
        Some(n) => n,
        None => {
            proof {
                assert(false);
            }
            String::new()
        },
    };
    let cs = components(path);
    let n = cs.len();
    let mut under_runtime = false;
    if n >= 2 {
        match &cs[n - 2] {
            PathComponent::Normal(p) => {
                under_runtime = str_eq(p.as_str(), "runtime");
            },
            _ => {},
        }
    }
    proof {
        let c = comps_view(cs@);
        if n >= 2 {
            assert(c[n - 2] == cs@[n - 2]@);
        }
    }
    if under_runtime {
        join_path("runtime", name.as_str())
    } else {
        name
    }
}

/// The logical identity of one build result within one build plan.
///
/// Check, build, and virtual-contract interfaces are distinct because they are
/// not interchangeable inputs even though all three use `.mi` files.
#[derive(Clone, Debug, PartialEq, Eq, Hash)]
pub enum ArtifactKey {
    CheckMi { package: PackageId, target_kind: TargetKind },
    BuildMi { package: PackageId, target_kind: TargetKind },
    CoreIr { package: PackageId, target_kind: TargetKind },
    VirtualContractMi { package: PackageId },
    ProofMi { package: PackageId, target_kind: TargetKind },
    ProofWhyml { package: PackageId, target_kind: TargetKind },
    ProofReport { package: PackageId, target_kind: TargetKind },
    /// `source` is the declaration path, relative to the package root.
    CStubObject { package: PackageId, source: String },
    CStubLibrary { package: PackageId },
    LinkedCore { package: PackageId, target_kind: TargetKind },
    Executable { package: PackageId, target_kind: TargetKind },
    GeneratedTestDriver { package: PackageId, target_kind: TargetKind },
    GeneratedTestMetadata { package: PackageId, target_kind: TargetKind },
    BundleResult { module: ModuleId },
    /// `source` is the path within the toolchain library layout.
    RuntimeObject { source: String },
    RuntimeLibrary,
    GeneratedMbti { package: PackageId, target_kind: TargetKind },
    DocsDir { module: ModuleId },
    /// `path` is the declaration path, relative to the package root unless
    /// declared absolute.
    PrebuildOutput { package: PackageId, path: String },
}

/// The value of an [`ArtifactKey`]; paths are identified by their components.
pub enum ArtifactKeyView {
    CheckMi { package: PackageId, target_kind: TargetKind },
    BuildMi { package: PackageId, target_kind: TargetKind },
    CoreIr { package: PackageId, target_kind: TargetKind },
    VirtualContractMi { package: PackageId },
    ProofMi { package: PackageId, target_kind: TargetKind },
    ProofWhyml { package: PackageId, target_kind: TargetKind },
    ProofReport { package: PackageId, target_kind: TargetKind },
    CStubObject { package: PackageId, source: PathKey },
    CStubLibrary { package: PackageId },
    LinkedCore { package: PackageId, target_kind: TargetKind },
    Executable { package: PackageId, target_kind: TargetKind },
    GeneratedTestDriver { package: PackageId, target_kind: TargetKind },
    GeneratedTestMetadata { package: PackageId, target_kind: TargetKind },
    BundleResult { module: ModuleId },
    RuntimeObject { source: PathKey },
    RuntimeLibrary,
    GeneratedMbti { package: PackageId, target_kind: TargetKind },
    DocsDir { module: ModuleId },
    PrebuildOutput { package: PackageId, path: PathKey },
}

impl View for ArtifactKey {
    type V = ArtifactKeyView;

    open spec fn view(&self) -> ArtifactKeyView {
        match self {
            ArtifactKey::CheckMi { package, target_kind } => ArtifactKeyView::CheckMi {
                package: *package,
                target_kind: *target_kind,
            },
            ArtifactKey::BuildMi { package, target_kind } => ArtifactKeyView::BuildMi {
                package: *package,
                target_kind: *target_kind,
            },
            ArtifactKey::CoreIr { package, target_kind } => ArtifactKeyView::CoreIr {
                package: *package,
                target_kind: *target_kind,
            },
            ArtifactKey::VirtualContractMi { package } => ArtifactKeyView::VirtualContractMi {
                package: *package,
            },
            ArtifactKey::ProofMi { package, target_kind } => ArtifactKeyView::ProofMi {
                package: *package,
                target_kind: *target_kind,
            },
            ArtifactKey::ProofWhyml { package, target_kind } => ArtifactKeyView::ProofWhyml {
                package: *package,
                target_kind: *target_kind,
            },
            ArtifactKey::ProofReport { package, target_kind } => ArtifactKeyView::ProofReport {
                package: *package,
                target_kind: *target_kind,
            },
            ArtifactKey::CStubObject { package, source } => ArtifactKeyView::CStubObject {
                package: *package,
                source: path_key(source@),
            },
            ArtifactKey::CStubLibrary { package } => ArtifactKeyView::CStubLibrary {
                package: *package,
            },
            ArtifactKey::LinkedCore { package, target_kind } => ArtifactKeyView::LinkedCore {
                package: *package,
                target_kind: *target_kind,
            },
            ArtifactKey::Executable { package, target_kind } => ArtifactKeyView::Executable {
                package: *package,
                target_kind: *target_kind,
            },
            ArtifactKey::GeneratedTestDriver { package, target_kind } => {
                ArtifactKeyView::GeneratedTestDriver { package: *package, target_kind: *target_kind }
            },
            ArtifactKey::GeneratedTestMetadata { package, target_kind } => {
                ArtifactKeyView::GeneratedTestMetadata {
                    package: *package,
                    target_kind: *target_kind,
                }
            },
            ArtifactKey::BundleResult { module } => ArtifactKeyView::BundleResult {
                module: *module,
            },
            ArtifactKey::RuntimeObject { source } => ArtifactKeyView::RuntimeObject {
                source: path_key(source@),
            },
            ArtifactKey::RuntimeLibrary => ArtifactKeyView::RuntimeLibrary,
            ArtifactKey::GeneratedMbti { package, target_kind } => ArtifactKeyView::GeneratedMbti {
                package: *package,
                target_kind: *target_kind,
            },
            ArtifactKey::DocsDir { module } => ArtifactKeyView::DocsDir { module: *module },
            ArtifactKey::PrebuildOutput { package, path } => ArtifactKeyView::PrebuildOutput {
                package: *package,
                path: path_key(path@),
            },
        }
    }
}

/// The package target whose compilation lifecycle owns an artifact.
pub open spec fn spec_package_target(k: ArtifactKeyView) -> Option<BuildTarget> {
    match k {
        ArtifactKeyView::CheckMi { package, target_kind }
        | ArtifactKeyView::BuildMi { package, target_kind }
        | ArtifactKeyView::CoreIr { package, target_kind }
        | ArtifactKeyView::ProofMi { package, target_kind }
        | ArtifactKeyView::ProofWhyml { package, target_kind }
        | ArtifactKeyView::ProofReport { package, target_kind }
        | ArtifactKeyView::LinkedCore { package, target_kind }
        | ArtifactKeyView::Executable { package, target_kind }
        | ArtifactKeyView::GeneratedTestDriver { package, target_kind }
        | ArtifactKeyView::GeneratedTestMetadata { package, target_kind }
        | ArtifactKeyView::GeneratedMbti { package, target_kind } => Some(
            BuildTarget { package, kind: target_kind },
        ),
        _ => None,
    }
}

impl ArtifactKey {
    /// The package target whose compilation lifecycle owns this artifact.
    /// Module-wide, package-wide, runtime, and prebuild artifacts have none.
    pub fn package_target(&self) -> (r: Option<BuildTarget>)
        ensures
            r == spec_package_target(self@),
    {
        match self {
            ArtifactKey::CheckMi { package, target_kind }
            | ArtifactKey::BuildMi { package, target_kind }
            | ArtifactKey::CoreIr { package, target_kind }
            | ArtifactKey::ProofMi { package, target_kind }
            | ArtifactKey::ProofWhyml { package, target_kind }
            | ArtifactKey::ProofReport { package, target_kind }
            | ArtifactKey::LinkedCore { package, target_kind }
            | ArtifactKey::Executable { package, target_kind }
            | ArtifactKey::GeneratedTestDriver { package, target_kind }
            | ArtifactKey::GeneratedTestMetadata { package, target_kind }
            | ArtifactKey::GeneratedMbti { package, target_kind } => Some(
                package.build_target(*target_kind),
            ),
            _ => None,
        }
    }

    /// A copy of this key.
    pub fn duplicate(&self) -> (r: ArtifactKey)
        ensures
            r@ == self@,
    {
        match self {
            ArtifactKey::CStubObject { package, source } => ArtifactKey::CStubObject {
                package: *package,
                source: source.clone(),
            },
            ArtifactKey::RuntimeObject { source } => ArtifactKey::RuntimeObject {
                source: source.clone(),
            },
            ArtifactKey::PrebuildOutput { package, path } => ArtifactKey::PrebuildOutput {
                package: *package,
                path: path.clone(),
            },
            ArtifactKey::CheckMi { package, target_kind } => ArtifactKey::CheckMi {
                package: *package,
                target_kind: *target_kind,
            },
            ArtifactKey::BuildMi { package, target_kind } => ArtifactKey::BuildMi {
                package: *package,
                target_kind: *target_kind,
            },
            ArtifactKey::CoreIr { package, target_kind } => ArtifactKey::CoreIr {
                package: *package,
                target_kind: *target_kind,
            },
            ArtifactKey::VirtualContractMi { package } => ArtifactKey::VirtualContractMi {
                package: *package,
            },
            ArtifactKey::ProofMi { package, target_kind } => ArtifactKey::ProofMi {
                package: *package,
                target_kind: *target_kind,
            },
            ArtifactKey::ProofWhyml { package, target_kind } => ArtifactKey::ProofWhyml {
                package: *package,
                target_kind: *target_kind,
            },
            ArtifactKey::ProofReport { package, target_kind } => ArtifactKey::ProofReport {
                package: *package,
                target_kind: *target_kind,
            },
            ArtifactKey::CStubLibrary { package } => ArtifactKey::CStubLibrary { package: *package },
            ArtifactKey::LinkedCore { package, target_kind } => ArtifactKey::LinkedCore {
                package: *package,
                target_kind: *target_kind,
            },
            ArtifactKey::Executable { package, target_kind } => ArtifactKey::Executable {
                package: *package,
                target_kind: *target_kind,
            },
            ArtifactKey::GeneratedTestDriver { package, target_kind } => {
                ArtifactKey::GeneratedTestDriver { package: *package, target_kind: *target_kind }
            },
            ArtifactKey::GeneratedTestMetadata { package, target_kind } => {
                ArtifactKey::GeneratedTestMetadata { package: *package, target_kind: *target_kind }
            },
            ArtifactKey::BundleResult { module } => ArtifactKey::BundleResult { module: *module },
            ArtifactKey::RuntimeLibrary => ArtifactKey::RuntimeLibrary,
            ArtifactKey::GeneratedMbti { package, target_kind } => ArtifactKey::GeneratedMbti {
                package: *package,
                target_kind: *target_kind,
            },
            ArtifactKey::DocsDir { module } => ArtifactKey::DocsDir { module: *module },
        }
    }

    /// Whether two keys denote the same artifact.
    pub fn same_as(&self, other: &ArtifactKey) -> (r: bool)
        ensures
            r == (self@ == other@),
    {
        match (self, other) {
            (
                ArtifactKey::CStubObject { package: p1, source: s1 },
                ArtifactKey::CStubObject { package: p2, source: s2 },
            ) => *p1 == *p2 && path_equal(s1.as_str(), s2.as_str()),
            (
                ArtifactKey::RuntimeObject { source: s1 },
                ArtifactKey::RuntimeObject { source: s2 },
            ) => path_equal(s1.as_str(), s2.as_str()),
            (
                ArtifactKey::PrebuildOutput { package: p1, path: s1 },
                ArtifactKey::PrebuildOutput { package: p2, path: s2 },
            ) => *p1 == *p2 && path_equal(s1.as_str(), s2.as_str()),
            (
                ArtifactKey::CheckMi { package: p1, target_kind: k1 },
                ArtifactKey::CheckMi { package: p2, target_kind: k2 },
            ) => *p1 == *p2 && *k1 == *k2,
            (
                ArtifactKey::BuildMi { package: p1, target_kind: k1 },
                ArtifactKey::BuildMi { package: p2, target_kind: k2 },
            ) => *p1 == *p2 && *k1 == *k2,
            (
                ArtifactKey::CoreIr { package: p1, target_kind: k1 },
                ArtifactKey::CoreIr { package: p2, target_kind: k2 },
            ) => *p1 == *p2 && *k1 == *k2,
            (
                ArtifactKey::VirtualContractMi { package: p1 },
                ArtifactKey::VirtualContractMi { package: p2 },
            ) => *p1 == *p2,
            (
                ArtifactKey::ProofMi { package: p1, target_kind: k1 },
                ArtifactKey::ProofMi { package: p2, target_kind: k2 },
            ) => *p1 == *p2 && *k1 == *k2,
            (
                ArtifactKey::ProofWhyml { package: p1, target_kind: k1 },
                ArtifactKey::ProofWhyml { package: p2, target_kind: k2 },
            ) => *p1 == *p2 && *k1 == *k2,
            (
                ArtifactKey::ProofReport { package: p1, target_kind: k1 },
                ArtifactKey::ProofReport { package: p2, target_kind: k2 },
            ) => *p1 == *p2 && *k1 == *k2,
            (
                ArtifactKey::CStubLibrary { package: p1 },
                ArtifactKey::CStubLibrary { package: p2 },
            ) => *p1 == *p2,
            (
                ArtifactKey::LinkedCore { package: p1, target_kind: k1 },
                ArtifactKey::LinkedCore { package: p2, target_kind: k2 },
            ) => *p1 == *p2 && *k1 == *k2,
            (
                ArtifactKey::Executable { package: p1, target_kind: k1 },
                ArtifactKey::Executable { package: p2, target_kind: k2 },
            ) => *p1 == *p2 && *k1 == *k2,
            (
                ArtifactKey::GeneratedTestDriver { package: p1, target_kind: k1 },
                ArtifactKey::GeneratedTestDriver { package: p2, target_kind: k2 },
            ) => *p1 == *p2 && *k1 == *k2,
            (
                ArtifactKey::GeneratedTestMetadata { package: p1, target_kind: k1 },
                ArtifactKey::GeneratedTestMetadata { package: p2, target_kind: k2 },
            ) => *p1 == *p2 && *k1 == *k2,
            (
                ArtifactKey::BundleResult { module: m1 },
                ArtifactKey::BundleResult { module: m2 },
            ) => *m1 == *m2,
            (ArtifactKey::RuntimeLibrary, ArtifactKey::RuntimeLibrary) => true,
            (
                ArtifactKey::GeneratedMbti { package: p1, target_kind: k1 },
                ArtifactKey::GeneratedMbti { package: p2, target_kind: k2 },
            ) => *p1 == *p2 && *k1 == *k2,
            (ArtifactKey::DocsDir { module: m1 }, ArtifactKey::DocsDir { module: m2 }) => *m1
                == *m2,
            _ => false,
        }
    }
}

/// The values of a list of artifact keys.
pub open spec fn keys_view(v: Seq<ArtifactKey>) -> Seq<ArtifactKeyView> {
    Seq::new(v.len(), |i: int| v[i]@)
}

} // verus!
