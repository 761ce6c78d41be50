//! The recurring refresh.

pub mod refresh;
