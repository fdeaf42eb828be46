//! What the webhook server offers, and where.

use crate::config::setting_view;
use crate::number::{decimal, unsigned_text};
use crate::text::same;
use vstd::prelude::*;
use vstd::string::StringExecFns;

verus! {

/// Whether admission webhooks are offered: they are, unless they are switched off.
pub fn webhooks_enabled(setting: Option<&str>) -> (r: bool)
    ensures
        r == (setting_view(setting) != Some("false"@)),
{
    match setting {
        Some(text) => !same(text, "false"),
        None => true,
    }
}

/// Where the server listens.
pub fn listen_address(port: u16) -> (r: String)
    ensures
        r@ == "0.0.0.0:"@ + decimal(port as nat),
{
    let mut r = "0.0.0.0:".to_owned();
    r.append(unsigned_text(port as u128).as_str());
    r
}

/// What the server answers to.
#[derive(Debug, Clone, Copy, PartialEq, Eq, Structural)]
pub enum Endpoint {
    /// Lists what the metrics API offers
    Discovery,
    /// Gives an external metric
    Metric,
    /// Validates a resource
    Validate,
    /// Gives a resource its defaults
    Mutate,
}

impl Endpoint {
    /// The path of the endpoint.
    pub fn path(self) -> (r: &'static str)
        ensures
            r@ == (match self {
                Endpoint::Discovery => "/apis/external.metrics.k8s.io/v1beta1"@,
                Endpoint::Metric =>
                    "/apis/external.metrics.k8s.io/v1beta1/namespaces/:namespace/:metric_name"@,
                Endpoint::Validate => "/validate-ctx-sh-v1beta1-externalpodautoscaler"@,
                Endpoint::Mutate => "/mutate-ctx-sh-v1beta1-externalpodautoscaler"@,
            }),
    {
        match self {
            Endpoint::Discovery => "/apis/external.metrics.k8s.io/v1beta1",
            Endpoint::Metric => {
                "/apis/external.metrics.k8s.io/v1beta1/namespaces/:namespace/:metric_name"
            },
            Endpoint::Validate => "/validate-ctx-sh-v1beta1-externalpodautoscaler",
            Endpoint::Mutate => "/mutate-ctx-sh-v1beta1-externalpodautoscaler",
        }
    }
}

/// What the server answers to. The metrics API is always offered.
pub fn endpoints(enable_webhooks: bool) -> (r: Vec<Endpoint>)
    ensures
        r@ == (if enable_webhooks {
            seq![Endpoint::Discovery, Endpoint::Metric, Endpoint::Validate, Endpoint::Mutate]
        } else {
            seq![Endpoint::Discovery, Endpoint::Metric]
        }),
{
    let mut r: Vec<Endpoint> = Vec::new();
    r.push(Endpoint::Discovery);
    r.push(Endpoint::Metric);
    if enable_webhooks {
        r.push(Endpoint::Validate);
        r.push(Endpoint::Mutate);
    }
    r
}

} // verus!
