//! What the scheduler decides and what a round does to the store.

pub mod loops;
pub mod processors;
pub mod retry;
pub mod jobs;
pub mod converge;
