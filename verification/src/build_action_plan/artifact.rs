//! Logical artifacts produced by build actions.

use vstd::prelude::*;

use super::BuildActionId;
use crate::model::{BuildTarget, ModuleId, PackageId};

verus! {

/// A logical artifact produced by a build action.
#[derive(Clone, Debug, PartialEq, Eq)]
pub enum PlannedArtifact {
    PackageInterface { producer: BuildActionId, target: BuildTarget },
    PackageCoreIr { producer: BuildActionId, target: BuildTarget },
    ProofInterface { producer: BuildActionId, target: BuildTarget },
    ProofWhyml { producer: BuildActionId, target: BuildTarget },
    ProofReport { producer: BuildActionId, target: BuildTarget },
    CStubObject { producer: BuildActionId, package: PackageId, index: u32 },
    CStubLibrary { producer: BuildActionId, package: PackageId },
    LinkedCore { producer: BuildActionId, target: BuildTarget },
    Executable { producer: BuildActionId, target: BuildTarget },
    GeneratedTestDriver { producer: BuildActionId, target: BuildTarget },
    GeneratedTestMetadata { producer: BuildActionId, target: BuildTarget },
    BundleResult { producer: BuildActionId, module: ModuleId },
    RuntimeLib { producer: BuildActionId },
    GeneratedMbti { producer: BuildActionId, target: BuildTarget },
    DocsDir { producer: BuildActionId },
    VirtualPackageInterface { producer: BuildActionId, package: PackageId },
    MoonLexGeneratedSource { producer: BuildActionId, package: PackageId, index: u32 },
    MoonYaccGeneratedSource { producer: BuildActionId, package: PackageId, index: u32 },
    KnownPath { producer: BuildActionId, path: String },
}

/// The action that produces artifact `a`.
pub open spec fn planned_producer(a: PlannedArtifact) -> BuildActionId {
    match a {
        PlannedArtifact::PackageInterface { producer, .. } => producer,
        PlannedArtifact::PackageCoreIr { producer, .. } => producer,
        PlannedArtifact::ProofInterface { producer, .. } => producer,
        PlannedArtifact::ProofWhyml { producer, .. } => producer,
        PlannedArtifact::ProofReport { producer, .. } => producer,
        PlannedArtifact::CStubObject { producer, .. } => producer,
        PlannedArtifact::CStubLibrary { producer, .. } => producer,
        PlannedArtifact::LinkedCore { producer, .. } => producer,
        PlannedArtifact::Executable { producer, .. } => producer,
        PlannedArtifact::GeneratedTestDriver { producer, .. } => producer,
        PlannedArtifact::GeneratedTestMetadata { producer, .. } => producer,
        PlannedArtifact::BundleResult { producer, .. } => producer,
        PlannedArtifact::RuntimeLib { producer } => producer,
        PlannedArtifact::GeneratedMbti { producer, .. } => producer,
        PlannedArtifact::DocsDir { producer } => producer,
        PlannedArtifact::VirtualPackageInterface { producer, .. } => producer,
        PlannedArtifact::MoonLexGeneratedSource { producer, .. } => producer,
        PlannedArtifact::MoonYaccGeneratedSource { producer, .. } => producer,
        PlannedArtifact::KnownPath { producer, .. } => producer,
    }
}

impl PlannedArtifact {
    /// The action that produces this artifact.
    pub fn producer(&self) -> (r: BuildActionId)
        ensures
            r == planned_producer(*self),
    {
        match self {
            PlannedArtifact::PackageInterface { producer, .. } => *producer,
            PlannedArtifact::PackageCoreIr { producer, .. } => *producer,
            PlannedArtifact::ProofInterface { producer, .. } => *producer,
            PlannedArtifact::ProofWhyml { producer, .. } => *producer,
            PlannedArtifact::ProofReport { producer, .. } => *producer,
            PlannedArtifact::CStubObject { producer, .. } => *producer,
            PlannedArtifact::CStubLibrary { producer, .. } => *producer,
            PlannedArtifact::LinkedCore { producer, .. } => *producer,
            PlannedArtifact::Executable { producer, .. } => *producer,
            PlannedArtifact::GeneratedTestDriver { producer, .. } => *producer,
            PlannedArtifact::GeneratedTestMetadata { producer, .. } => *producer,
            PlannedArtifact::BundleResult { producer, .. } => *producer,
            PlannedArtifact::RuntimeLib { producer } => *producer,
            PlannedArtifact::GeneratedMbti { producer, .. } => *producer,
            PlannedArtifact::DocsDir { producer } => *producer,
            PlannedArtifact::VirtualPackageInterface { producer, .. } => *producer,
            PlannedArtifact::MoonLexGeneratedSource { producer, .. } => *producer,
            PlannedArtifact::MoonYaccGeneratedSource { producer, .. } => *producer,
            PlannedArtifact::KnownPath { producer, .. } => *producer,
        }
    }
}

} // verus!
