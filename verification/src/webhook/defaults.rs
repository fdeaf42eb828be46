//! Defaults of `ExternalPodAutoscaler` resources.

use crate::apis::externalpodautoscaler::{
    default_api_version, default_evaluation_period, default_interval, default_path, default_port,
    default_scheme, default_timeout, ExternalPodAutoscaler,
};
use vstd::prelude::*;
use vstd::string::StrSliceExecFns;

verus! {

/// A text, or a default where it is empty.
pub open spec fn text_or(text: Seq<char>, default: Seq<char>) -> Seq<char> {
    if text.len() == 0 {
        default
    } else {
        text
    }
}

/// Whether `after` is `before` with its defaults: what was not given is set, and nothing
/// else is changed. Where no workload to scrape is given, it is the one to scale, with
/// its defaults.
pub open spec fn is_defaulted(before: ExternalPodAutoscaler, after: ExternalPodAutoscaler) -> bool {
    let a = before.spec;
    let b = after.spec;
    &&& after.metadata == before.metadata
    &&& after.status == before.status
    &&& b.min_replicas == (if a.min_replicas == 0 {
        1
    } else {
        a.min_replicas
    })
    &&& b.max_replicas == a.max_replicas
    &&& b.metrics == a.metrics
    &&& b.behavior == a.behavior
    &&& b.scrape_target_ref == Some(
        match a.scrape_target_ref {
            Some(target) => target,
            None => b.scale_target_ref,
        },
    )
    &&& b.scale_target_ref.kind == a.scale_target_ref.kind
    &&& b.scale_target_ref.name == a.scale_target_ref.name
    &&& b.scale_target_ref.api_version@ == text_or(a.scale_target_ref.api_version@, "apps/v1"@)
    &&& b.scrape.port == (if a.scrape.port == 0 {
        8080
    } else {
        a.scrape.port
    })
    &&& b.scrape.path@ == text_or(a.scrape.path@, "/metrics"@)
    &&& b.scrape.interval@ == text_or(a.scrape.interval@, "15s"@)
    &&& b.scrape.timeout@ == text_or(a.scrape.timeout@, "1s"@)
    &&& b.scrape.scheme@ == text_or(a.scrape.scheme@, "http"@)
    &&& b.scrape.evaluation_period@ == text_or(a.scrape.evaluation_period@, "60s"@)
    &&& b.scrape.tls == a.scrape.tls
    &&& b.scrape.aggregation_type == a.scrape.aggregation_type
}

fn is_empty(text: &String) -> (r: bool)
    ensures
        r == (text@.len() == 0),
{
    text.as_str().unicode_len() == 0
}

/// Apply default values to EPA (modifies in place)
pub fn apply_defaults(epa: &mut ExternalPodAutoscaler)
    ensures
        is_defaulted(*old(epa), *final(epa)),
{
    if epa.spec.min_replicas == 0 {
        epa.spec.min_replicas = 1;
    }
    if is_empty(&epa.spec.scale_target_ref.api_version) {
        epa.spec.scale_target_ref.api_version = default_api_version();
    }
    if epa.spec.scrape_target_ref.is_none() {
        epa.spec.scrape_target_ref = Some(epa.spec.scale_target_ref.copy());
    }
    if epa.spec.scrape.port == 0 {
        epa.spec.scrape.port = default_port();
    }
    if is_empty(&epa.spec.scrape.path) {
        epa.spec.scrape.path = default_path();
    }
    if is_empty(&epa.spec.scrape.interval) {
        epa.spec.scrape.interval = default_interval();
    }
    if is_empty(&epa.spec.scrape.timeout) {
        epa.spec.scrape.timeout = default_timeout();
    }
    if is_empty(&epa.spec.scrape.scheme) {
        epa.spec.scrape.scheme = default_scheme();
    }
    if is_empty(&epa.spec.scrape.evaluation_period) {
        epa.spec.scrape.evaluation_period = default_evaluation_period();
    }
}

} // verus!
