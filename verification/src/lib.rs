//! Verified core of a feed harvester: typed upstream payloads, an entity
//! store with upsert semantics, gap selection, keyset pagination and the
//! decisions of the fetch scheduler.

pub mod config;
pub mod twitter;
pub mod utils;
