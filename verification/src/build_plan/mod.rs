//! Semantic build planning: artifacts and package prebuild actions.

pub mod artifact;
pub mod artifact_plan;
pub mod backend_compat;
pub mod backend_plan;
pub mod custom_prebuild;
pub mod link_core;
pub mod link_order;
pub mod native_exec;
pub mod package_prebuild;
pub mod prebuild;
pub mod target_files;
pub mod traversal;
