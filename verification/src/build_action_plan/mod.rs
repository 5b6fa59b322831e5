//! Action-level identities and the logical artifacts that actions produce.

pub mod artifact;
pub mod product;
pub mod view;

use vstd::prelude::*;

verus! {

/// Opaque identifier for an action in a build action plan.
#[derive(Clone, Copy, Debug, PartialEq, Eq, Structural, Hash)]
pub struct BuildActionId(pub usize);

} // verus!
