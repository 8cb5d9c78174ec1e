//! The project: what the engine knows of the tree it works in.

pub mod path_laws;
pub mod project;
