//! The external metrics API.

pub mod aggregation;
pub mod handlers;
pub mod laws;
