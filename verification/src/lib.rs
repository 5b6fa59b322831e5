//! Build planning, lowering and execution-plan logic of the MoonBit build
//! system, with its contracts proved by Verus.

pub mod all_pkgs;
pub mod assoc;
pub mod build_action_plan;
pub mod build_lower;
pub mod build_plan;
pub mod compile;
pub mod cond_comp;
pub mod dependency_build_cache;
pub mod discover;
pub mod execution_plan;
pub mod model;
pub mod order;
pub mod path;
pub mod path_set;
pub mod shell;
pub mod text;
