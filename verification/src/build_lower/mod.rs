//! Lowering of planned actions into concrete commands.

pub mod action_artifacts;
pub mod action_desc;
pub mod action_lowering;
pub mod artifact;
pub mod backend;
pub mod backend_pipeline;
pub mod command;
pub mod compiler;
pub mod layout;
pub mod link_inputs;
pub mod lowered_action;
pub mod moonc_command;
pub mod n2_adapter;
pub mod target_options;
pub mod utils;

use vstd::prelude::*;

verus! {

/// How compiler warnings are treated.
#[derive(Debug, Clone, Copy, PartialEq, Eq, Structural)]
pub enum WarningCondition {
    /// The default behavior: warnings are shown.
    Default,
    /// Deny all warnings: treat warnings as errors.
    Deny,
    /// Allow all warnings: do not show any warnings.
    Allow,
}

/// An error raised while lowering an action into a command.
#[derive(Debug)]
pub enum LoweringError {
    /// A moonc response file cannot carry argument `index` unchanged.
    MooncResponseFile { index: usize, reason: &'static str },
}

impl LoweringError {
    /// The message that describes this error.
    pub fn message(&self) -> (r: String)
        ensures
            match self {
                LoweringError::MooncResponseFile { index, reason } => r@ == moonc_response_file_message(
                    *index as nat,
                    reason@,
                ),
            },
    {
        match self {
            LoweringError::MooncResponseFile { index, reason } => {
                let mut r = crate::text::owned("moonc response files cannot represent argument ");
                crate::text::append_str(&mut r, crate::text::decimal(*index as u64).as_str());
                crate::text::append_str(&mut r, ": ");
                crate::text::append_str(&mut r, reason);
                r
            },
        }
    }
}

/// The message of a response-file error for argument `index`.
pub open spec fn moonc_response_file_message(index: nat, reason: Seq<char>) -> Seq<char> {
    "moonc response files cannot represent argument "@ + crate::text::decimal_digits(index) + ": "@
        + reason
}

} // verus!
