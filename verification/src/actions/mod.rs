//! The stages of the pipeline, each as the decisions it makes.

pub mod batch;
pub mod bundle;
pub mod closure;
pub mod fetch;
pub mod resolve;
pub mod transform;
