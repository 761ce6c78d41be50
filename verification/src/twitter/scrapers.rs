//! Requests to the upstream service, and what its responses say of the
//! rate budget.

pub mod general;
pub mod specific;
