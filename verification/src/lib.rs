//! Platform-rule evaluation, library resolution and launch-parameter assembly
//! for a game client launcher.
//!
//! Data flows one way: version metadata and a description of the host go
//! through [`minecraft::libraries::is_rules`] and
//! [`minecraft::libraries::is_libraries`], and the resolved libraries go
//! through [`parameters::BuildParameters`] to the command tokens that start the
//! client runtime.
pub mod global_path;
pub mod minecraft;
pub mod parameters;
pub mod text;
pub mod utils;
pub mod version_metadata;
