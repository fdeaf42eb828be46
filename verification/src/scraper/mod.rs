//! Collecting samples from pods.

pub mod format_laws;
pub mod laws;
pub mod parser;
pub mod pod_cache;
pub mod scheduler;
pub mod scrape_laws;
pub mod selector;
pub mod service;
pub mod worker;
