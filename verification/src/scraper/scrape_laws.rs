//! What holds of scraping the pods of a workload.

use crate::apis::externalpodautoscaler::{ExternalPodAutoscaler, MetricSpec, TargetRef};
use crate::duration::{parse_duration, whole_seconds};
use crate::k8s::{LabelSelector, LabelSelectorRequirement, ObjectMeta, Pod};
use crate::labels::Labels;
use crate::membership::manager::MembershipManager;
use crate::membership::ownership::{key_of, EpaOwnership};
use crate::names::{NameMap, NameSet};
use crate::number::{parse_unsigned, signed_text};
use crate::scraper::laws::{is_plain_pair, law_selector_round_trip};
use crate::scraper::parser::{metric_views, parse_prometheus_text, MetricView, PrometheusMetric};
use crate::scraper::pod_cache::{pair_views, parse_label_selector};
use crate::scraper::scheduler::{
    config_of, configured, intervals_in, max_samples, metric_config, ScrapeJob, ScrapeRound,
    ScrapeStep, Scheduler,
};
use crate::scraper::selector::{
    admits, build_label_selector_string, get_pod_selector, has_labels, requirement_part,
    requirement_parts, selector_parts, target_kind, WorkloadKind,
};
use crate::scraper::service::{handle_update, job_capacity, worker_count, EpaUpdate};
use crate::scraper::worker::{
    answer, asked_for, is_success, metrics_stored, name_any, plan_scrape, record_outcome,
    scrape_pod_static, scrape_stored, Fetched, ScrapePlan, Target,
};
use crate::store::ops::{MetricsStore, StoreView};
use crate::store::types::{window_key, MetricConfig, SampleView};
use crate::text::{cut, joined, lemma_first_of, lemma_first_of_range};
use std::sync::Arc;
use vstd::prelude::*;

verus! {

// ---------------------------------------------------------------------------
// The pods of a workload
// ---------------------------------------------------------------------------

/// The text of a workload's selector, read again, asks for exactly the labels that the
/// selector gives, with their values.
pub proof fn law_workload_labels_are_asked_for(
    selector: &LabelSelector,
    labels: &Labels,
    n: usize,
    r: Result<String, String>,
    text: &str,
    pairs: Vec<(String, String)>,
    key: Seq<char>,
    value: Seq<char>,
)
    requires
        call_ensures(build_label_selector_string, (selector,), r),
        selector.match_labels == Some(*labels),
        selector.match_expressions is None,
        call_ensures(Labels::len, (labels,), n),
        n > 0,
        forall|k: Seq<char>| #[trigger]
            labels@.contains_key(k) ==> is_plain_pair((k, labels@[k])),
        r matches Ok(t) ==> t@ == text@,
        call_ensures(parse_label_selector, (text,), pairs),
    ensures
        r is Ok,
        pairs@.len() == n,
        (exists|i: int|
            0 <= i < pairs@.len() && (#[trigger] pairs@[i]).0@ == key && pairs@[i].1@ == value)
            == (labels@.contains_key(key) && labels@[key] == value),
{
    let all = labels.pairs();
    assert forall|i: int| 0 <= i < all.len() implies is_plain_pair(#[trigger] all[i]) by {
        assert(labels@.contains_key(all[i].0));
        assert(all[i] == (all[i].0, labels@[all[i].0]));
    }
    law_selector_round_trip(*selector, all);
    let read = pair_views(pairs@);
    assert(read == all);
    assert(read.len() == pairs@.len());
    if labels@.contains_key(key) && labels@[key] == value {
        let i = choose|i: int| 0 <= i < all.len() && #[trigger] all[i].0 == key;
        assert(read[i] == (pairs@[i].0@, pairs@[i].1@));
        assert(pairs@[i].0@ == key && pairs@[i].1@ == value);
    }
    if exists|i: int|
        0 <= i < pairs@.len() && (#[trigger] pairs@[i]).0@ == key && pairs@[i].1@ == value {
        let i = choose|i: int|
            0 <= i < pairs@.len() && (#[trigger] pairs@[i]).0@ == key && pairs@[i].1@ == value;
        assert(read[i] == (pairs@[i].0@, pairs@[i].1@));
        assert(all[i].0 == key);
    }
}

/// A requirement `In` with one value narrows a workload's selector by one equality more.
/// Any other requirement cannot be written, and then there is no text at all. Nor is there
/// one where nothing is asked for.
pub proof fn law_workload_requirements(
    selector: &LabelSelector,
    more: &LabelSelector,
    requirement: LabelSelectorRequirement,
    a: Result<String, String>,
    b: Result<String, String>,
)
    requires
        call_ensures(build_label_selector_string, (selector,), a),
        call_ensures(build_label_selector_string, (more,), b),
        more.match_labels == selector.match_labels,
        more.match_expressions matches Some(all) && all@.len() > 0 && all@.last() == requirement
            && match selector.match_expressions {
            Some(fewer) => fewer@ == all@.drop_last(),
            None => all@.len() == 1,
        },
    ensures
        selector.match_labels is None && selector.match_expressions is None ==> a is Err,
        requirement.operator@ != "In"@ ==> b is Err,
        requirement.values is None ==> b is Err,
        more.match_labels is None && more.match_expressions->0@.len() == 1
            && requirement.operator@ != "In"@ ==> b->Err_0@ == "matchExpressions operator '"@
            + requirement.operator@ + "' on key '"@ + requirement.key@ + "' is not supported"@,
        more.match_labels is None && more.match_expressions->0@.len() == 1
            && requirement.operator@ == "In"@ && b is Err ==> b->Err_0@
            == "matchExpressions 'In' on key '"@ + requirement.key@
            + "' requires exactly one value"@,
        requirement.values matches Some(values) ==> {
            &&& values@.len() != 1 ==> b is Err
            &&& values@.len() == 1 && requirement.operator@ == "In"@ && a is Ok ==> b is Ok
                && b->Ok_0@ == a->Ok_0@ + ","@ + requirement.key@ + "="@ + values@[0]@
            &&& values@.len() == 1 && requirement.operator@ == "In"@ && selector.match_labels
                is None && selector.match_expressions is None ==> b is Ok && b->Ok_0@
                == requirement.key@ + "="@ + values@[0]@
        },
{
    let all = more.match_expressions->0@;
    let empty = Seq::<LabelSelectorRequirement>::empty();
    assert(requirement_parts(empty) == Ok::<Seq<Seq<char>>, Seq<char>>(seq![]));
    if selector.match_expressions is None {
        assert(all.drop_last() =~= empty);
    }
    if let Ok(parts) = selector_parts(*selector) {
        if let Ok(part) = requirement_part(requirement) {
            assert(selector_parts(*more) is Ok);
            let longer = selector_parts(*more)->Ok_0;
            assert(longer =~= parts.push(part));
            assert(longer.drop_last() =~= parts);
            reveal_with_fuel(joined, 2);
            if parts.len() > 0 {
                assert(joined(longer, ","@) =~= joined(parts, ","@) + ","@ + part);
                assert(joined(longer, ","@) =~= joined(parts, ","@) + ","@ + requirement.key@
                    + "="@ + requirement.values->0@[0]@);
            }
        }
    }
}

/// The workload of a reference is of the kind that the reference names: a deployment, a
/// stateful set or a daemon set.
pub proof fn law_kinds_of_workloads(target: &TargetRef, r: Result<WorkloadKind, String>)
    requires
        call_ensures(target_kind, (target,), r),
    ensures
        r == Ok::<WorkloadKind, String>(WorkloadKind::Deployment) <==> target.kind@
            == "Deployment"@,
        r == Ok::<WorkloadKind, String>(WorkloadKind::StatefulSet) <==> target.kind@
            == "StatefulSet"@,
        r == Ok::<WorkloadKind, String>(WorkloadKind::DaemonSet) <==> target.kind@ == "DaemonSet"@,
{
    reveal_strlit("Deployment");
    reveal_strlit("StatefulSet");
    reveal_strlit("DaemonSet");
    assert("Deployment"@.len() == 10);
    assert("StatefulSet"@.len() == 11);
    assert("DaemonSet"@.len() == 9);
}

/// The selector of a workload's pods is the text of the selector in its spec; it is an
/// error where there is none.
pub proof fn law_selector_of_a_workload(
    kind: WorkloadKind,
    selector: &Option<LabelSelector>,
    given: &LabelSelector,
    text: Result<String, String>,
    r: Result<String, String>,
)
    requires
        call_ensures(get_pod_selector, (kind, selector), r),
        selector matches Some(s) ==> s == *given && call_ensures(
            build_label_selector_string,
            (given,),
            text,
        ),
    ensures
        selector is None ==> r is Err,
        selector is Some ==> {
            &&& r is Ok == text is Ok
            &&& r is Ok ==> r->Ok_0@ == text->Ok_0@
            &&& r is Err ==> r->Err_0@ == text->Err_0@
        },
{
}

// ---------------------------------------------------------------------------
// One scrape
// ---------------------------------------------------------------------------

/// A pod is scraped at its address, with the scheme, the port and the path that the
/// resource gives, and as long as its timeout allows.
pub proof fn law_where_a_pod_is_scraped(
    epa: &ExternalPodAutoscaler,
    pod: &Pod,
    timeout_text: &str,
    timeout: Result<u128, String>,
    port: String,
    r: Result<ScrapePlan, String>,
)
    requires
        call_ensures(plan_scrape, (epa, pod), r),
        timeout_text@ == epa.spec.scrape.timeout@,
        call_ensures(parse_duration, (timeout_text,), timeout),
        call_ensures(signed_text, (epa.spec.scrape.port as i64,), port),
        pod.metadata.name is Some && pod.metadata.namespace is Some,
        epa.metadata.name is Some,
        pod.status is Some && pod.status->0.pod_ip is Some,
    ensures
        r is Ok == timeout is Ok,
        r is Err ==> r->Err_0@ == timeout->Err_0@,
        r matches Ok(plan) ==> {
            &&& plan.pod_name@ == pod.metadata.name->0@
            &&& plan.namespace@ == pod.metadata.namespace->0@
            &&& plan.epa_name@ == epa.metadata.name->0@
            &&& plan.timeout == timeout->Ok_0
            &&& plan.url@ == epa.spec.scrape.scheme@ + "://"@ + pod.status->0.pod_ip->0@ + ":"@
                + port@ + epa.spec.scrape.path@
        },
{
}

/// A pod without a namespace or an address is not scraped, and neither is one for a
/// resource without a name.
pub proof fn law_pods_that_cannot_be_scraped(
    epa: &ExternalPodAutoscaler,
    pod: &Pod,
    name: String,
    r: Result<ScrapePlan, String>,
)
    requires
        call_ensures(plan_scrape, (epa, pod), r),
        call_ensures(name_any, (&pod.metadata,), name),
        pod.metadata.namespace is None || epa.metadata.name is None || pod.status is None || (
        pod.status->0.pod_ip is None),
    ensures
        r is Err,
        pod.metadata.namespace is None ==> r->Err_0@ == "Pod "@ + name@ + " has no namespace"@,
        pod.metadata.namespace is Some && epa.metadata.name is None ==> r->Err_0@
            == "EPA missing name metadata"@,
        pod.metadata.namespace is Some && epa.metadata.name is Some ==> r->Err_0@ == "Pod "@
            + name@ + " has no IP"@,
{
}

/// An answer counts exactly where its status says success: it is the body, where that
/// could be read. Everything else is reported as what it is.
pub proof fn law_answers(fetched: Fetched, pod_name: &str, r: Result<String, String>)
    requires
        call_ensures(answer, (fetched, pod_name), r),
    ensures
        match fetched {
            Fetched::Answered { status, body: Ok(text), .. } => {
                &&& r is Ok == (200 <= status <= 299)
                &&& r is Ok ==> r->Ok_0@ == text@
            },
            _ => r is Err,
        },
        fetched matches Fetched::HttpError(m) ==> r->Err_0@ == "HTTP error: "@ + m@,
        fetched is TimedOut ==> r->Err_0@ == "Request timeout"@,
        fetched matches Fetched::Answered { status, status_text, body } ==> {
            &&& !(200 <= status <= 299) ==> r is Err && r->Err_0@ == "HTTP "@ + status_text@
                + " from pod "@ + pod_name@
            &&& 200 <= status <= 299 && body is Err ==> r is Err && r->Err_0@
                == "Failed to read response: "@ + body->Err_0@
        },
{
}

/// Whether a resource asks for a metric that a pod reports: it has the name, and the
/// selector admits its labels where there is one.
pub open spec fn asks_for(spec: MetricSpec, metric: PrometheusMetric) -> bool {
    metric.name@ == spec.metric_name@ && (spec.label_selector is None || admits(
        spec.label_selector->0,
        metric.labels@,
    ))
}

/// Samples of a window that retains `max` of them, once one was added for each of the
/// first `n` metrics that a resource asks for.
pub open spec fn with_samples(
    samples: Seq<SampleView>,
    max: nat,
    spec: MetricSpec,
    metrics: Seq<PrometheusMetric>,
    at: u64,
    n: int,
) -> Seq<SampleView>
    decreases n,
{
    if n <= 0 {
        samples
    } else {
        let before = with_samples(samples, max, spec, metrics, at, n - 1);
        if asks_for(spec, metrics[n - 1]) {
            (if before.len() >= max && before.len() > 0 {
                before.drop_first()
            } else {
                before
            }).push(
                SampleView {
                    value: metrics[n - 1].value@,
                    scraped_at: at,
                    success: true,
                    metric_type: metrics[n - 1].metric_type,
                },
            )
        } else {
            before
        }
    }
}

proof fn lemma_metrics_stored(
    store: StoreView,
    spec: MetricSpec,
    metrics: Seq<PrometheusMetric>,
    to: Target,
    key: Seq<Seq<char>>,
    n: int,
)
    requires
        0 <= n <= metrics.len(),
        key == seq![to.namespace, to.epa_name, spec.metric_name@, to.pod_name],
    ensures
        ({
            let after = metrics_stored(store, spec, metric_views(metrics).take(n), to);
            let old_samples = if store.windows.contains_key(key) {
                store.windows[key].samples
            } else {
                seq![]
            };
            let max = if store.windows.contains_key(key) {
                store.windows[key].max_samples
            } else {
                to.max_samples
            };
            let new_samples = with_samples(old_samples, max, spec, metrics, to.scraped_at, n);
            &&& after.windows.contains_key(key) ==> after.windows[key].samples == new_samples
                && after.windows[key].max_samples == max
            &&& after.windows.contains_key(key) == (store.windows.contains_key(key) || exists|
                k: int,
            |
                0 <= k < n && asks_for(spec, #[trigger] metrics[k]))
            &&& !after.windows.contains_key(key) ==> new_samples == old_samples
        }),
    decreases n,
{
    let all = metric_views(metrics);
    if n > 0 {
        lemma_metrics_stored(store, spec, metrics, to, key, n - 1);
        assert(all.take(n).drop_last() =~= all.take(n - 1));
        assert(all.take(n).last() == metrics[n - 1]@);
        assert(asked_for(spec, metrics[n - 1]@) == asks_for(spec, metrics[n - 1]));
        assert(window_key(to.namespace, to.epa_name, spec.metric_name@, to.pod_name) == key);
        if asks_for(spec, metrics[n - 1]) {
            assert(0 <= n - 1 < n && asks_for(spec, metrics[n - 1]));
        }
        if exists|k: int| 0 <= k < n && asks_for(spec, #[trigger] metrics[k]) {
            let k = choose|k: int| 0 <= k < n && asks_for(spec, #[trigger] metrics[k]);
            if k < n - 1 {
                assert(0 <= k < n - 1 && asks_for(spec, metrics[k]));
            }
        }
    } else {
        assert(all.take(0) =~= seq![]);
    }
}

proof fn lemma_other_metric(
    store: StoreView,
    spec: MetricSpec,
    metrics: Seq<MetricView>,
    to: Target,
    key: Seq<Seq<char>>,
)
    requires
        key.len() == 4,
        key[2] != spec.metric_name@,
    ensures
        ({
            let after = metrics_stored(store, spec, metrics, to);
            &&& after.windows.contains_key(key) == store.windows.contains_key(key)
            &&& store.windows.contains_key(key) ==> after.windows[key] == store.windows[key]
        }),
    decreases metrics.len(),
{
    if metrics.len() > 0 {
        lemma_other_metric(store, spec, metrics.drop_last(), to, key);
        let other = window_key(to.namespace, to.epa_name, spec.metric_name@, to.pod_name);
        assert(other[2] == spec.metric_name@);
    }
}

proof fn lemma_scrape_stored(
    store: StoreView,
    specs: Seq<MetricSpec>,
    metrics: Seq<PrometheusMetric>,
    to: Target,
    key: Seq<Seq<char>>,
    i: int,
)
    requires
        0 <= i < specs.len(),
        key == seq![to.namespace, to.epa_name, specs[i].metric_name@, to.pod_name],
        forall|j: int|
            0 <= j < specs.len() && j != i ==> (#[trigger] specs[j]).metric_name@
                != specs[i].metric_name@,
    ensures
        ({
            let after = scrape_stored(store, specs, metric_views(metrics), to);
            let only = metrics_stored(store, specs[i], metric_views(metrics), to);
            &&& after.windows.contains_key(key) == only.windows.contains_key(key)
            &&& after.windows.contains_key(key) ==> after.windows[key] == only.windows[key]
        }),
    decreases specs.len(),
{
    let all = metric_views(metrics);
    let front = specs.drop_last();
    if i < specs.len() - 1 {
        lemma_scrape_stored(store, front, metrics, to, key, i);
        assert(specs[specs.len() - 1].metric_name@ != specs[i].metric_name@);
        lemma_other_metric(scrape_stored(store, front, all, to), specs.last(), all, to, key);
    } else {
        lemma_front_untouched(store, front, all, to, key);
        lemma_metrics_stored(store, specs[i], metrics, to, key, metrics.len() as int);
        lemma_metrics_stored(
            scrape_stored(store, front, all, to),
            specs[i],
            metrics,
            to,
            key,
            metrics.len() as int,
        );
        assert(all.take(metrics.len() as int) =~= all);
    }
}

proof fn lemma_front_untouched(
    store: StoreView,
    specs: Seq<MetricSpec>,
    metrics: Seq<MetricView>,
    to: Target,
    key: Seq<Seq<char>>,
)
    requires
        key.len() == 4,
        forall|j: int| 0 <= j < specs.len() ==> (#[trigger] specs[j]).metric_name@ != key[2],
    ensures
        ({
            let after = scrape_stored(store, specs, metrics, to);
            &&& after.windows.contains_key(key) == store.windows.contains_key(key)
            &&& store.windows.contains_key(key) ==> after.windows[key] == store.windows[key]
        }),
    decreases specs.len(),
{
    if specs.len() > 0 {
        let front = specs.drop_last();
        lemma_front_untouched(store, front, metrics, to, key);
        assert(specs[specs.len() - 1].metric_name@ != key[2]);
        lemma_other_metric(
            scrape_stored(store, front, metrics, to),
            specs.last(),
            metrics,
            to,
            key,
        );
    }
}

/// A scrape stores a sample of each metric that the pod reports and the resource asks
/// for, in the window of that metric and that pod: it holds the value and the type that
/// were reported, the time of the scrape, and that it succeeded. Other metrics that the
/// pod reports are not stored.
pub proof fn law_scrape_stores_what_is_asked_for(
    epa: &ExternalPodAutoscaler,
    pod: &Pod,
    store: &mut MetricsStore,
    max: usize,
    fetched: Fetched,
    at: u64,
    r: Result<(), String>,
    plan: ScrapePlan,
    text: &str,
    metrics: Vec<PrometheusMetric>,
    i: int,
    key: Seq<Seq<char>>,
)
    requires
        call_ensures(scrape_pod_static, (epa, pod, store, max, fetched, at), r),
        call_ensures(plan_scrape, (epa, pod), Ok::<ScrapePlan, String>(plan)),
        fetched matches Fetched::Answered { status, body: Ok(body), .. } && 200 <= status <= 299
            && body@ == text@,
        call_ensures(
            parse_prometheus_text,
            (text,),
            Ok::<Vec<PrometheusMetric>, String>(metrics),
        ),
        0 <= i < epa.spec.metrics@.len(),
        forall|j: int|
            0 <= j < epa.spec.metrics@.len() && j != i ==> (
            #[trigger] epa.spec.metrics@[j]).metric_name@ != epa.spec.metrics@[i].metric_name@,
        key == seq![
            plan.namespace@,
            plan.epa_name@,
            epa.spec.metrics@[i].metric_name@,
            plan.pod_name@,
        ],
    ensures
        r is Ok,
        old(store)@.windows.contains_key(key) ==> final(store)@.windows.contains_key(key)
            && final(store)@.windows[key].max_samples == old(store)@.windows[key].max_samples
            && final(store)@.windows[key].samples == with_samples(
            old(store)@.windows[key].samples,
            old(store)@.windows[key].max_samples,
            epa.spec.metrics@[i],
            metrics@,
            at,
            metrics@.len() as int,
        ),
        !old(store)@.windows.contains_key(key) ==> {
            &&& final(store)@.windows.contains_key(key) == exists|k: int|
                0 <= k < metrics@.len() && asks_for(
                    epa.spec.metrics@[i],
                    #[trigger] metrics@[k],
                )
            &&& final(store)@.windows.contains_key(key) ==> final(
                store)@.windows[key].max_samples == max && final(store)@.windows[key].samples
                == with_samples(
                seq![],
                max as nat,
                epa.spec.metrics@[i],
                metrics@,
                at,
                metrics@.len() as int,
            )
        },
{
    let to = Target {
        namespace: plan.namespace@,
        epa_name: plan.epa_name@,
        pod_name: plan.pod_name@,
        max_samples: max as nat,
        scraped_at: at,
    };
    let all = metric_views(metrics@);
    lemma_scrape_stored(old(store)@, epa.spec.metrics@, metrics@, to, key, i);
    lemma_metrics_stored(
        old(store)@,
        epa.spec.metrics@[i],
        metrics@,
        to,
        key,
        metrics@.len() as int,
    );
    assert(all.take(metrics@.len() as int) =~= all);
}

/// A scrape whose request failed, timed out or was refused is an error, and so is one
/// whose answer cannot be read; nothing is stored then.
pub proof fn law_failed_scrape_is_an_error(
    epa: &ExternalPodAutoscaler,
    pod: &Pod,
    store: &mut MetricsStore,
    max: usize,
    fetched: Fetched,
    at: u64,
    r: Result<(), String>,
    text: &str,
    fault: String,
)
    requires
        call_ensures(scrape_pod_static, (epa, pod, store, max, fetched, at), r),
        match fetched {
            Fetched::Answered { status, body: Ok(body), .. } => !(200 <= status <= 299) || (body@
                == text@ && call_ensures(
                parse_prometheus_text,
                (text,),
                Err::<Vec<PrometheusMetric>, String>(fault),
            )),
            _ => true,
        },
    ensures
        r is Err,
        final(store)@ == old(store)@,
{
}

/// A scrape is counted for its resource, as a success or as a failure, and nothing else
/// changes.
pub proof fn law_scrapes_are_counted(
    store: &mut MetricsStore,
    epa: &ExternalPodAutoscaler,
    success: bool,
    key: Seq<Seq<char>>,
    other: Seq<Seq<char>>,
)
    requires
        call_ensures(record_outcome, (store, epa, success), ()),
        epa.metadata.namespace is Some && epa.metadata.name is Some,
        key == seq![epa.metadata.namespace->0@, epa.metadata.name->0@],
        other != key,
    ensures
        final(store)@.windows == old(store)@.windows,
        final(store)@.cache == old(store)@.cache,
        final(store)@.configs == old(store)@.configs,
        final(store)@.stat(other) == old(store)@.stat(other),
        success && old(store)@.stat(key).0 < i32::MAX ==> final(store)@.stat(key).0
            == old(store)@.stat(key).0 + 1,
        success ==> final(store)@.stat(key).1 == old(store)@.stat(key).1,
        !success ==> final(store)@.stat(key).0 == old(store)@.stat(key).0,
        !success && old(store)@.stat(key).1 < i32::MAX ==> final(store)@.stat(key).1
            == old(store)@.stat(key).1 + 1,
{
}

// ---------------------------------------------------------------------------
// How metrics are aggregated
// ---------------------------------------------------------------------------

/// A metric is aggregated by the type and over the period that it gives itself, and where
/// it gives none, by those of its resource.
pub proof fn law_metric_overrides_resource(
    epa: &ExternalPodAutoscaler,
    spec: &MetricSpec,
    period: u128,
    text: &str,
    own: Result<u128, String>,
    r: Result<MetricConfig, String>,
)
    requires
        call_ensures(metric_config, (epa, spec, period), r),
        spec.evaluation_period matches Some(t) ==> t@ == text@ && call_ensures(
            parse_duration,
            (text,),
            own,
        ),
    ensures
        spec.evaluation_period is None ==> r is Ok && r->Ok_0.evaluation_period == period,
        spec.evaluation_period is Some ==> r is Ok == own is Ok && (r is Ok
            ==> r->Ok_0.evaluation_period == own->Ok_0),
        r is Ok && spec.aggregation_type is None ==> r->Ok_0.aggregation_type
            == epa.spec.scrape.aggregation_type,
        r is Ok && spec.aggregation_type is Some ==> r->Ok_0.aggregation_type
            == spec.aggregation_type->0,
{
}

/// As many samples are retained as it takes to cover the evaluation period at the scrape
/// interval, in whole seconds, and one more; two at least, and no more than that.
pub proof fn law_samples_retained(period: u128, interval: u128, r: Option<usize>)
    requires
        call_ensures(max_samples, (period, interval), r),
    ensures
        ({
            let p = period as int / 1_000_000_000;
            let s = if interval as int / 1_000_000_000 < 1 {
                1
            } else {
                interval as int / 1_000_000_000
            };
            r matches Some(n) ==> {
                &&& n >= 2
                &&& (n - 1) * s >= p
                &&& n > 2 ==> (n - 2) * s < p
            }
        }),
{
    let p = whole_seconds(period as nat);
    let s = if whole_seconds(interval as nat) < 1 {
        1
    } else {
        whole_seconds(interval as nat)
    };
    assert(p == period as int / 1_000_000_000);
    assert(p == (p / s) * s + p % s && p % s < s) by {
        vstd::arithmetic::div_mod::lemma_fundamental_div_mod(p as int, s as int);
        vstd::arithmetic::mul::lemma_mul_is_commutative(s as int, (p / s) as int);
        vstd::arithmetic::div_mod::lemma_mod_bound(p as int, s as int);
    }
    if let Some(n) = r {
        let q = p / s;
        let k = intervals_in(period as nat, interval as nat);
        assert((q + 1) * s == q * s + s) by (nonlinear_arith);
        assert((q - 1) * s == q * s - s) by (nonlinear_arith);
        assert(k * s >= p);
        if k >= 1 {
            assert(n - 1 == k);
            if n > 2 {
                assert((k - 1) * s < p) by {
                    if k == q {
                        assert((q - 1) * s < p);
                    } else {
                        assert(k - 1 == q);
                    }
                }
            }
        } else {
            assert(n == 2);
            assert(k == 0);
            assert(0 * s == 0) by (nonlinear_arith);
        }
    }
}

// ---------------------------------------------------------------------------
// The schedule
// ---------------------------------------------------------------------------

proof fn lemma_key_is_cut(namespace: Seq<char>, name: Seq<char>)
    requires
        !namespace.contains('/'),
    ensures
        cut(key_of(namespace, name), '/') == Some((namespace, name)),
{
    reveal_strlit("/");
    let key = key_of(namespace, name);
    let n = namespace.len() as int;
    assert forall|j: int| 0 <= j < n implies key[j] != '/' by {
        assert(key[j] == namespace[j]);
        if namespace[j] == '/' {
            assert(namespace.contains('/'));
        }
    }
    assert(key[n] == '/');
    lemma_first_of(key, '/', n);
    assert(key.take(n) =~= namespace);
    assert(key.skip(n + 1) =~= name);
}

/// A resource is scraped where this replica collects its metrics and it is not scraped
/// already at its interval less than that ago: with its interval, its evaluation period
/// and the workload that it names for that, or else the one to scale. Certificates go
/// unchecked only where it says so.
pub proof fn law_what_is_due(
    scheduler: &Scheduler,
    ownership: &mut EpaOwnership,
    membership: &MembershipManager,
    key: &str,
    namespace: Seq<char>,
    name: Seq<char>,
    epa: &ExternalPodAutoscaler,
    now: u64,
    period_text: &str,
    interval_text: &str,
    period: Result<u128, String>,
    interval: Result<u128, String>,
    kept: Option<usize>,
    r: Result<ScrapeStep, String>,
)
    requires
        call_ensures(Scheduler::process_epa, (scheduler, ownership, membership, key, epa, now), r),
        !namespace.contains('/'),
        key@ == namespace + "/"@ + name,
        period_text@ == epa.spec.scrape.evaluation_period@,
        interval_text@ == epa.spec.scrape.interval@,
        call_ensures(parse_duration, (period_text,), period),
        call_ensures(parse_duration, (interval_text,), interval),
        period is Ok && interval is Ok ==> call_ensures(
            max_samples,
            (period->Ok_0, interval->Ok_0),
            kept,
        ),
    ensures
        period is Err || interval is Err ==> r is Err && final(ownership)@ == old(ownership)@,
        period is Ok && interval is Ok ==> ({
            let collects = final(ownership)@.owned.contains_key(key@)
                || final(ownership)@.lost.contains_key(key@);
            let waits = scheduler@.next_scrape.contains_key(key@)
                && scheduler@.next_scrape[key@].1 == interval->Ok_0 && now
                < scheduler@.next_scrape[key@].0;
            &&& !collects == (r is Ok && r->Ok_0 is NotOwned)
            &&& (collects && waits) == (r is Ok && r->Ok_0 is NotDue)
            &&& (collects && !waits && kept is Some) == (r is Ok && r->Ok_0 is Due)
            &&& r matches Ok(ScrapeStep::Due(round)) ==> {
                &&& round.namespace@ == namespace
                &&& round.name@ == name
                &&& round.evaluation_period == period->Ok_0
                &&& round.interval == interval->Ok_0
                &&& kept == Some(round.max_samples)
                &&& round.use_insecure_tls == (epa.spec.scrape.tls is Some
                    && epa.spec.scrape.tls->0.insecure_skip_verify)
                &&& round.target == (if epa.spec.scrape_target_ref is Some {
                    epa.spec.scrape_target_ref->0
                } else {
                    epa.spec.scale_target_ref
                })
            }
        }),
{
    lemma_key_is_cut(namespace, name);
    assert(key@ =~= key_of(namespace, name));
}

/// A key without a namespace is an error, and changes no ownership.
pub proof fn law_malformed_key(
    scheduler: &Scheduler,
    ownership: &mut EpaOwnership,
    membership: &MembershipManager,
    key: &str,
    epa: &ExternalPodAutoscaler,
    now: u64,
    r: Result<ScrapeStep, String>,
)
    requires
        call_ensures(Scheduler::process_epa, (scheduler, ownership, membership, key, epa, now), r),
        !key@.contains('/'),
    ensures
        r matches Err(m) && m@ == "Invalid EPA key format: "@ + key@,
        final(ownership)@ == old(ownership)@,
{
    lemma_first_of_range(key@, '/');
}

/// Once a round of scrapes was started, the resource is scraped next when its interval is
/// over, and the schedule of the others stays as it is.
pub proof fn law_next_round(
    scheduler: &mut Scheduler,
    store: &mut MetricsStore,
    key: &str,
    epa: &ExternalPodAutoscaler,
    round: &ScrapeRound,
    now: u64,
    r: Result<(), String>,
    other: Seq<char>,
)
    requires
        now + round.interval <= u128::MAX,
        call_ensures(Scheduler::start_round, (scheduler, store, key, epa, round, now), r),
        other != key@,
    ensures
        final(scheduler)@.next_scrape.contains_key(key@),
        final(scheduler)@.next_scrape[key@].0 == now + round.interval,
        final(scheduler)@.next_scrape[key@].1 == round.interval,
        final(scheduler)@.next_scrape.contains_key(other)
            == old(scheduler)@.next_scrape.contains_key(other),
        old(scheduler)@.next_scrape.contains_key(other) ==> final(
            scheduler)@.next_scrape[other] == old(scheduler)@.next_scrape[other],
        final(scheduler)@.last_eviction == old(scheduler)@.last_eviction,
{
}

proof fn lemma_configured(
    store: StoreView,
    namespace: Seq<char>,
    name: Seq<char>,
    epa: ExternalPodAutoscaler,
    period: u128,
    i: int,
    n: int,
)
    requires
        0 <= n <= epa.spec.metrics@.len(),
        0 <= i < epa.spec.metrics@.len(),
        forall|j: int|
            0 <= j < epa.spec.metrics@.len() && j != i ==> (
            #[trigger] epa.spec.metrics@[j]).metric_name@ != epa.spec.metrics@[i].metric_name@,
    ensures
        ({
            let key = seq![namespace, name, epa.spec.metrics@[i].metric_name@];
            let after = configured(store, namespace, name, epa, period, n);
            &&& after.windows == store.windows
            &&& after.cache == store.cache
            &&& after.stats == store.stats
            &&& i >= n ==> after.config(key) == store.config(key)
            &&& i < n ==> match config_of(epa, epa.spec.metrics@[i], period) {
                Ok(config) => after.config(key) == config,
                Err(_) => after.config(key) == store.config(key),
            }
        }),
    decreases n,
{
    if n > 0 {
        lemma_configured(store, namespace, name, epa, period, i, n - 1);
        let key = seq![namespace, name, epa.spec.metrics@[i].metric_name@];
        let other = seq![namespace, name, epa.spec.metrics@[n - 1].metric_name@];
        assert(key[2] == epa.spec.metrics@[i].metric_name@);
        assert(other[2] == epa.spec.metrics@[n - 1].metric_name@);
    }
}

/// Once a round of scrapes was started without an error, the store knows how each metric
/// of the resource is aggregated; all else that it holds stays.
pub proof fn law_round_sets_configurations(
    scheduler: &mut Scheduler,
    store: &mut MetricsStore,
    key: &str,
    epa: &ExternalPodAutoscaler,
    round: &ScrapeRound,
    now: u64,
    r: Result<(), String>,
    i: int,
    spec: &MetricSpec,
    config: Result<MetricConfig, String>,
)
    requires
        now + round.interval <= u128::MAX,
        call_ensures(Scheduler::start_round, (scheduler, store, key, epa, round, now), r),
        r is Ok,
        0 <= i < epa.spec.metrics@.len(),
        *spec == epa.spec.metrics@[i],
        forall|j: int|
            0 <= j < epa.spec.metrics@.len() && j != i ==> (
            #[trigger] epa.spec.metrics@[j]).metric_name@ != spec.metric_name@,
        call_ensures(metric_config, (epa, spec, round.evaluation_period), config),
    ensures
        config is Ok,
        final(store)@.config(seq![round.namespace@, round.name@, spec.metric_name@])
            == config->Ok_0,
        final(store)@.windows == old(store)@.windows,
        final(store)@.cache == old(store)@.cache,
        final(store)@.stats == old(store)@.stats,
{
    lemma_configured(
        old(store)@,
        round.namespace@,
        round.name@,
        *epa,
        round.evaluation_period,
        i,
        epa.spec.metrics@.len() as int,
    );
}

/// A round fails exactly where the evaluation period of one of the metrics cannot be read,
/// and then as the first of them does.
pub proof fn law_round_fails(
    scheduler: &mut Scheduler,
    store: &mut MetricsStore,
    key: &str,
    epa: &ExternalPodAutoscaler,
    round: &ScrapeRound,
    now: u64,
    r: Result<(), String>,
    i: int,
    spec: &MetricSpec,
    config: Result<MetricConfig, String>,
)
    requires
        now + round.interval <= u128::MAX,
        call_ensures(Scheduler::start_round, (scheduler, store, key, epa, round, now), r),
        0 <= i < epa.spec.metrics@.len(),
        *spec == epa.spec.metrics@[i],
        forall|j: int|
            0 <= j < i ==> config_of(
                *epa,
                #[trigger] epa.spec.metrics@[j],
                round.evaluation_period,
            ) is Ok,
        call_ensures(metric_config, (epa, spec, round.evaluation_period), config),
    ensures
        config is Err ==> r is Err && r->Err_0@ == config->Err_0@,
        config is Ok && i == epa.spec.metrics@.len() - 1 ==> r is Ok,
{
    let metrics = epa.spec.metrics@;
    assert(config_of(*epa, metrics[i], round.evaluation_period) is Err == config is Err);
    if r is Err {
        let k = choose|k: int|
            {
                &&& 0 <= k < metrics.len()
                &&& config_of(*epa, #[trigger] metrics[k], round.evaluation_period) == Err::<
                    MetricConfig,
                    Seq<char>,
                >(r->Err_0@)
                &&& forall|j: int|
                    0 <= j < k ==> config_of(
                        *epa,
                        #[trigger] metrics[j],
                        round.evaluation_period,
                    ) is Ok
            };
        assert(config_of(*epa, metrics[k], round.evaluation_period) is Err);
        assert(k >= i);
    }
}

/// At the end of a tick the resources that are gone are forgotten. Once a minute the
/// windows go whose newest sample is more than two minutes old; other windows stay.
pub proof fn law_end_of_a_tick(
    scheduler: &mut Scheduler,
    active: &NameSet,
    store: &mut MetricsStore,
    now: u64,
    evicted: usize,
    name: Seq<char>,
    key: Seq<Seq<char>>,
)
    requires
        call_ensures(Scheduler::finish_tick, (scheduler, active, store, now), evicted),
    ensures
        final(scheduler)@.next_scrape.contains_key(name)
            == (old(scheduler)@.next_scrape.contains_key(name) && active@.contains(name)),
        final(scheduler)@.next_scrape.contains_key(name) ==> final(
            scheduler)@.next_scrape[name] == old(scheduler)@.next_scrape[name],
        final(store)@.cache == old(store)@.cache,
        final(store)@.configs == old(store)@.configs,
        final(store)@.stats == old(store)@.stats,
        now - old(scheduler)@.last_eviction < 60_000_000_000 ==> final(store)@ == old(store)@
            && evicted == 0 && final(scheduler)@.last_eviction == old(scheduler)@.last_eviction,
        now - old(scheduler)@.last_eviction >= 60_000_000_000 ==> {
            &&& final(scheduler)@.last_eviction == now
            &&& final(store)@.windows.contains_key(key) == (old(store)@.windows.contains_key(key)
                && !(old(store)@.windows[key].samples.len() > 0 && now
                - old(store)@.windows[key].samples.last().scraped_at > 120_000_000_000))
            &&& final(store)@.windows.contains_key(key) ==> final(store)@.windows[key]
                == old(store)@.windows[key]
        },
{
}

/// There is one job for each pod of a round.
pub proof fn law_one_job_for_each_pod(
    round: &ScrapeRound,
    epa: &Arc<ExternalPodAutoscaler>,
    pods: &Vec<Arc<Pod>>,
    jobs: Vec<ScrapeJob>,
    i: int,
)
    requires
        call_ensures(ScrapeRound::jobs, (round, epa, pods), jobs),
        0 <= i < pods@.len(),
    ensures
        jobs@.len() == pods@.len(),
        jobs@[i].pod == pods@[i],
        jobs@[i].epa == *epa,
        jobs@[i].max_samples == round.max_samples,
        jobs@[i].use_insecure_tls == round.use_insecure_tls,
{
}

// ---------------------------------------------------------------------------
// What is scraped
// ---------------------------------------------------------------------------

/// There are as many workers as are asked for, twenty where nothing readable is, and one
/// at least; 64 jobs can wait for each.
pub proof fn law_workers(
    setting: Option<&str>,
    asked: Option<u64>,
    n: usize,
    capacity: usize,
)
    requires
        call_ensures(worker_count, (setting,), n),
        n * 64 <= usize::MAX,
        call_ensures(job_capacity, (n,), capacity),
        setting matches Some(text) ==> call_ensures(
            parse_unsigned,
            (text, usize::MAX as u64),
            asked,
        ),
    ensures
        capacity == n * 64,
        setting is None || asked is None && setting is Some ==> n == 20,
        setting is Some && asked is Some ==> n == (if asked->0 == 0 {
            1
        } else {
            asked->0 as int
        }),
{
}

/// A resource that comes or changes is scraped as it is now, and one that goes is not
/// scraped any more. Other resources stay as they are.
pub proof fn law_updates(
    active: &mut NameMap<Arc<ExternalPodAutoscaler>>,
    store: &mut MetricsStore,
    update: EpaUpdate,
    namespace: Seq<char>,
    name: Seq<char>,
    key: Seq<char>,
    other: Seq<char>,
)
    requires
        call_ensures(handle_update, (active, store, update), ()),
        key == namespace + "/"@ + name,
        other != key,
        match update {
            EpaUpdate::Upsert(epa) => epa.metadata.namespace is Some && epa.metadata.name is Some
                && epa.metadata.namespace->0@ == namespace && epa.metadata.name->0@ == name,
            EpaUpdate::Delete { namespace: ns, name: n } => ns@ == namespace && n@ == name,
        },
    ensures
        update matches EpaUpdate::Upsert(epa) ==> final(active)@.contains_key(key)
            && final(active)@[key] == epa,
        update is Delete ==> !final(active)@.contains_key(key) && final(store)@ == old(store)@,
        final(active)@.contains_key(other) == old(active)@.contains_key(other),
        old(active)@.contains_key(other) ==> final(active)@[other] == old(active)@[other],
{
}

/// A resource that comes or changes has its metrics configured at once, and nothing else
/// that the store holds changes.
pub proof fn law_updates_configure(
    active: &mut NameMap<Arc<ExternalPodAutoscaler>>,
    store: &mut MetricsStore,
    update: Arc<ExternalPodAutoscaler>,
    epa: &ExternalPodAutoscaler,
    period_text: &str,
    period: u128,
    i: int,
    spec: &MetricSpec,
    config: Result<MetricConfig, String>,
)
    requires
        call_ensures(handle_update, (active, store, EpaUpdate::Upsert(update)), ()),
        *update == *epa,
        epa.metadata.namespace is Some && epa.metadata.name is Some,
        period_text@ == epa.spec.scrape.evaluation_period@,
        call_ensures(parse_duration, (period_text,), Ok::<u128, String>(period)),
        0 <= i < epa.spec.metrics@.len(),
        *spec == epa.spec.metrics@[i],
        forall|j: int|
            0 <= j < epa.spec.metrics@.len() && j != i ==> (
            #[trigger] epa.spec.metrics@[j]).metric_name@ != spec.metric_name@,
        call_ensures(metric_config, (epa, spec, period), config),
    ensures
        ({
            let key = seq![
                epa.metadata.namespace->0@,
                epa.metadata.name->0@,
                spec.metric_name@,
            ];
            &&& config is Ok ==> final(store)@.config(key) == config->Ok_0
            &&& config is Err ==> final(store)@.config(key) == old(store)@.config(key)
        }),
        final(store)@.windows == old(store)@.windows,
        final(store)@.cache == old(store)@.cache,
        final(store)@.stats == old(store)@.stats,
{
    lemma_configured(
        old(store)@,
        epa.metadata.namespace->0@,
        epa.metadata.name->0@,
        *epa,
        period,
        i,
        epa.spec.metrics@.len() as int,
    );
}

/// Labels have all that is wanted exactly where each wanted key has its value there.
pub proof fn law_wanted_labels(
    labels: &Labels,
    wanted: &Labels,
    r: bool,
    key: &str,
    value: &str,
    wants: bool,
    has: bool,
    nothing: bool,
)
    requires
        call_ensures(has_labels, (labels, wanted), r),
        call_ensures(Labels::has, (wanted, key, value), wants),
        call_ensures(Labels::has, (labels, key, value), has),
        call_ensures(Labels::is_empty, (wanted,), nothing),
    ensures
        r && wants ==> has,
        nothing ==> r,
        !r ==> exists|k: Seq<char>|
            #[trigger] wanted@.contains_key(k) && !(labels@.contains_key(k) && labels@[k]
                == wanted@[k]),
{
}

/// The codes of success are those from 200 to 299. An object without a name has the prefix
/// from which one is made in its place.
pub proof fn law_codes_and_names(status: u16, r: bool, metadata: &ObjectMeta, name: String)
    requires
        call_ensures(is_success, (status,), r),
        call_ensures(name_any, (metadata,), name),
    ensures
        r == (200 <= status <= 299),
        metadata.name is Some ==> name@ == metadata.name->0@,
        metadata.name is None && metadata.generate_name is Some ==> name@
            == metadata.generate_name->0@,
        metadata.name is None && metadata.generate_name is None ==> name@.len() == 0,
{
    reveal_strlit("");
}

/// The kind of a workload has the name by which a target names it.
pub proof fn law_names_of_kinds(
    kind: WorkloadKind,
    name: &'static str,
    target: &TargetRef,
    r: Result<WorkloadKind, String>,
)
    requires
        call_ensures(WorkloadKind::name, (kind,), name),
        call_ensures(target_kind, (target,), r),
        target.kind@ == name@,
    ensures
        r == Ok::<WorkloadKind, String>(kind),
{
    reveal_strlit("Deployment");
    reveal_strlit("StatefulSet");
    reveal_strlit("DaemonSet");
    assert("Deployment"@.len() == 10);
    assert("StatefulSet"@.len() == 11);
    assert("DaemonSet"@.len() == 9);
}

} // verus!
