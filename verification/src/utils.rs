//! Small helpers shared by the pipeline.

pub mod errors;
pub mod general;
pub mod outside;
pub mod text;
