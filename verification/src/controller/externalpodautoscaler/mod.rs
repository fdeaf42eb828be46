//! The controller of `ExternalPodAutoscaler` resources.

pub mod observer;
pub mod reconcile;
