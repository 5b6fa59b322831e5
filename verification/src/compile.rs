//! Errors of compiling a build graph.

use vstd::prelude::*;

use crate::build_lower::LoweringError;
use crate::build_plan::prebuild::BuildPlanConstructError;

verus! {

/// Why a build graph could not be compiled.
#[derive(Debug)]
pub enum CompileGraphError {
    /// The build plan for the modules could not be built.
    BuildPlanError(BuildPlanConstructError),
    /// The build plan could not be lowered.
    LowerError(LoweringError),
}

impl CompileGraphError {
    /// The message that describes this error.
    pub fn message(&self) -> (r: &'static str)
        ensures
            r@ == match self {
                CompileGraphError::BuildPlanError(_) => "Failed to build a build plan for the modules"@,
                CompileGraphError::LowerError(_) => "Failed to lower the build plan"@,
            },
    {
        match self {
            CompileGraphError::BuildPlanError(_) => "Failed to build a build plan for the modules",
            CompileGraphError::LowerError(_) => "Failed to lower the build plan",
        }
    }
}

} // verus!
