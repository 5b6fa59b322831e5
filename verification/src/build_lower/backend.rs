//! Backend-specific lowering realization.
//!
//! Build planning deals in logical actions and artifacts. Lowering selects one
//! backend branch for command shape and runtime/linking behavior.

use vstd::prelude::*;

use crate::model::NativeBackendMode;

verus! {

/// How a C-family native executable is produced.
#[derive(Clone, Copy, Debug, PartialEq, Eq, Structural)]
pub enum CExecutableRealization {
    CompileAndLinkGeneratedC,
    LinkDirectObject,
}

/// The executable realization of a native backend mode.
pub open spec fn spec_executable_realization(mode: NativeBackendMode) -> CExecutableRealization {
    match mode {
        NativeBackendMode::GeneratedC => CExecutableRealization::CompileAndLinkGeneratedC,
        NativeBackendMode::DirectObject(_) => CExecutableRealization::LinkDirectObject,
    }
}

impl NativeBackendMode {
    /// Generated C is compiled and linked; a direct object is only linked.
    pub fn executable_realization(&self) -> (r: CExecutableRealization)
        ensures
            r == spec_executable_realization(*self),
    {
        match self {
            NativeBackendMode::GeneratedC => CExecutableRealization::CompileAndLinkGeneratedC,
            NativeBackendMode::DirectObject(_) => CExecutableRealization::LinkDirectObject,
        }
    }
}

} // verus!
