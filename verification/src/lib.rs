//! Decision logic of an external pod autoscaler for Kubernetes.

pub mod apis;
pub mod config;
pub mod controller;
pub mod duration;
pub mod k8s;
pub mod labels;
pub mod laws;
pub mod membership;
pub mod names;
pub mod number;
pub mod scraper;
pub mod store;
pub mod text;
pub mod webhook;
