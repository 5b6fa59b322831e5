//! Logical products selected from a build node.

use vstd::prelude::*;

use crate::model::{BuildTarget, ModuleId, PackageId};

verus! {

/// A logical product selected from a build node.
#[derive(Clone, Debug, PartialEq, Eq)]
pub enum BuildProduct {
    PackageInterface { target: BuildTarget },
    PackageCoreIr { target: BuildTarget },
    ProofInterface { target: BuildTarget },
    ProofWhyml { target: BuildTarget },
    ProofReport { target: BuildTarget },
    CStubObject { package: PackageId, index: u32 },
    CStubLibrary { package: PackageId },
    LinkedCore { target: BuildTarget },
    Executable { target: BuildTarget },
    GeneratedTestDriver { target: BuildTarget },
    GeneratedTestMetadata { target: BuildTarget },
    BundleResult { module: ModuleId },
    RuntimeLib,
    GeneratedMbti { target: BuildTarget },
    DocsDir,
    VirtualPackageInterface { package: PackageId },
    MoonLexGeneratedSource { package: PackageId, index: u32 },
    MoonYaccGeneratedSource { package: PackageId, index: u32 },
    /// Prebuild commands already resolve output paths while planning.
    PrebuildOutputPath { path: String },
}

} // verus!
