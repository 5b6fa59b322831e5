//! Registry dependency build actions that may be prepared before a standalone
//! script's project-local build graph.
//!
//! Physical paths are invocation-local. Labels, canonical arguments,
//! resolution facts and explicit input identities form the portable identity
//! of a dependency build.

use vstd::prelude::*;

verus! {

/// One input of a dependency build.
#[derive(Debug, Clone)]
pub struct DependencyBuildInput {
    pub label: String,
    pub path: String,
    pub identity: InputIdentity,
}

/// How an input contributes to the identity of a dependency build.
#[derive(Debug, Clone, Copy, PartialEq, Eq, Structural)]
pub enum InputIdentity {
    /// The label suffices, because another identity fact covers the bytes,
    /// such as the checksum of a prepared registry archive.
    Logical,
    /// The digest of the file's bytes.
    Content,
    /// The digest of the bytes of an executable, resolved through `PATH` when
    /// needed; the installation path is not part of the identity.
    Tool,
}

/// One output of a dependency build.
#[derive(Debug, Clone)]
pub struct DependencyBuildOutput {
    pub label: String,
    pub path: String,
}

/// A dependency build action of the executor's graph.
#[derive(Debug, Clone)]
pub struct DependencyBuildAction {
    /// The executor's index of the build.
    pub build_id: usize,
    pub description: DependencyBuildDescription,
}

/// The portable description of a dependency build.
#[derive(Debug, Clone)]
pub struct DependencyBuildDescription {
    pub kind: DependencyBuildKind,
    pub package: String,
    pub working_directory: String,
    pub canonical_args: Vec<String>,
    pub environment: Vec<(String, String)>,
    pub resolution: Vec<DependencyResolution>,
    pub inputs: Vec<DependencyBuildInput>,
    pub outputs: Vec<DependencyBuildOutput>,
}

/// What a dependency build produces.
#[derive(Debug, Clone, Copy, PartialEq, Eq, Structural, PartialOrd, Ord)]
pub enum DependencyBuildKind {
    MooncBuildCore,
    CStubObject,
    CStubLibrary,
    NativeRuntime,
}

/// A resolved module that a dependency build depends on.
#[derive(Debug, Clone, PartialEq, Eq, PartialOrd, Ord)]
pub struct DependencyResolution {
    pub module: String,
    pub version: String,
    pub source_checksum: Option<String>,
}

} // verus!
