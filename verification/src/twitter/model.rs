//! Stored entities, the payloads they are made from, and the store itself.

pub mod payload;
pub mod store;
pub mod user;
pub mod tweet;
pub mod media;
pub mod laws;
pub mod rank;
pub mod backfill;
pub mod load;
pub mod convergence;
