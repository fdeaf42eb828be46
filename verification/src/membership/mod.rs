//! Which replicas there are, and which of them answers for which resource.

pub mod manager;
pub mod ownership;
pub mod laws;
