//! The controller of `Metric` resources.

use crate::apis::metric::MetricSpec;
use vstd::prelude::*;
use vstd::string::StringExecFns;

verus! {

/// After how many seconds a metric is reconciled again that could not be.
pub const ERROR_REQUEUE_SECONDS: u64 = 5;

/// Why a metric could not be reconciled.
#[derive(Debug)]
pub enum Error {
    ReconcileError(String),
    KubernetesError(String),
    StatusError(String),
}

impl Error {
    /// How the error is reported.
    pub fn message(&self) -> (r: String)
        ensures
            r@ == (match *self {
                Error::ReconcileError(m) => "Failed to reconcile Metric; "@ + m@,
                Error::KubernetesError(m) => "Kubernetes API error; "@ + m@,
                Error::StatusError(m) => "Status updater error; "@ + m@,
            }),
    {
        let (head, m) = match self {
            Error::ReconcileError(m) => ("Failed to reconcile Metric; ", m),
            Error::KubernetesError(m) => ("Kubernetes API error; ", m),
            Error::StatusError(m) => ("Status updater error; ", m),
        };
        let mut r = head.to_owned();
        r.append(m.as_str());
        r
    }
}

/// After how many seconds a metric is reconciled again: its scrape interval. An interval
/// below zero is taken as the unsigned number of the same bits.
pub fn reconcile(spec: &MetricSpec) -> (r: u64)
    ensures
        r == spec.target.interval_seconds as u64,
        spec.target.interval_seconds >= 0 ==> r == spec.target.interval_seconds,
{
    spec.target.interval_seconds as u64
}

/// After how many seconds a metric is reconciled again that could not be.
pub fn error_policy(_error: &Error) -> (r: u64)
    ensures
        r == ERROR_REQUEUE_SECONDS,
{
    ERROR_REQUEUE_SECONDS
}

} // verus!
