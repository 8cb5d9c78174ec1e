//! Core of a JavaScript bundling engine: module locators, the project
//! registry, and the decisions behind fetching, resolving, transforming,
//! traversing and bundling modules.
//!
//! The library decides and computes; reading files, calling hooks and running
//! the parser are left to its caller, which hands the library plain values
//! and gets plain values back.

pub mod actions;
pub mod classes;
pub mod encoding;
pub mod paths;
pub mod pattern;
pub mod sourcemap;
pub mod text;
pub mod transforms;
pub mod types;
pub mod url_laws;
pub mod utils;

pub use classes::project::Project;
pub use utils::errors::CompilationError;
