//! The harvesting pipeline: upstream payloads, the entity store, the
//! scheduler's decisions and the read path.

pub mod model;
pub mod pipeline;
pub mod scrapers;
pub mod schedulers;
pub mod routes;
