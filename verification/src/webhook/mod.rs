//! Answering the API server: external metrics and admission.

pub mod admission;
pub mod defaults;
pub mod laws;
pub mod metrics;
pub mod patch;
pub mod server;
pub mod types;
pub mod validation;
