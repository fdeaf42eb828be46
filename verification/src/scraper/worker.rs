//! Scraping one pod.

use crate::apis::externalpodautoscaler::{ExternalPodAutoscaler, MetricSpec};
use crate::duration::{duration_of, parse_duration, LONGEST};
use crate::k8s::{ObjectMeta, Pod};
use crate::number::{decimal_int, signed_text};
use crate::scraper::parser::{
    metric_views, parse_prometheus_text, read_text, readable_text, MetricView, Progress,
    PrometheusMetric,
};
use crate::scraper::selector::{admits, matches_label_selector};
use crate::store::ops::{MetricsStore, StoreView};
use crate::store::types::{
    one_counted, resource_key, window_key, LabeledSample, SampleKey, SampleView,
};
use crate::text::same;
use vstd::prelude::*;
use vstd::string::StringExecFns;

verus! {

// ---------------------------------------------------------------------------
// What is asked of the pod
// ---------------------------------------------------------------------------

/// The name of an object; where it has none, the prefix from which one is made.
pub open spec fn any_name(metadata: ObjectMeta) -> Seq<char> {
    match metadata.name {
        Some(name) => name@,
        None => match metadata.generate_name {
            Some(prefix) => prefix@,
            None => ""@,
        },
    }
}

/// The name of an object; where it has none, the prefix from which one is made.
pub fn name_any(metadata: &ObjectMeta) -> (r: String)
    ensures
        r@ == any_name(*metadata),
{
    match &metadata.name {
        Some(name) => name.clone(),
        None => match &metadata.generate_name {
            Some(prefix) => prefix.clone(),
            None => "".to_owned(),
        },
    }
}

/// The request that a scrape makes.
#[derive(Debug)]
pub struct ScrapePlan {
    /// Name of the pod
    pub pod_name: String,
    /// Namespace of the pod
    pub namespace: String,
    /// Name of the resource
    pub epa_name: String,
    /// Where the metrics are
    pub url: String,
    /// How long an answer is waited for, in nanoseconds
    pub timeout: u128,
}

/// The request that a scrape makes.
pub struct PlanView {
    pub pod_name: Seq<char>,
    pub namespace: Seq<char>,
    pub epa_name: Seq<char>,
    pub url: Seq<char>,
    pub timeout: nat,
}

impl View for ScrapePlan {
    type V = PlanView;

    open spec fn view(&self) -> PlanView {
        PlanView {
            pod_name: self.pod_name@,
            namespace: self.namespace@,
            epa_name: self.epa_name@,
            url: self.url@,
            timeout: self.timeout as nat,
        }
    }
}

/// The address of a pod.
pub open spec fn pod_address(pod: Pod) -> Option<Seq<char>> {
    match pod.status {
        Some(status) => match status.pod_ip {
            Some(ip) => Some(ip@),
            None => None,
        },
        None => None,
    }
}

/// Where the metrics of a pod are.
pub open spec fn metrics_url(epa: ExternalPodAutoscaler, ip: Seq<char>) -> Seq<char> {
    epa.spec.scrape.scheme@ + "://"@ + ip + ":"@ + decimal_int(epa.spec.scrape.port as int)
        + epa.spec.scrape.path@
}

/// The request that a scrape of a pod makes, or the report of why it cannot be made.
pub open spec fn plan_of(epa: ExternalPodAutoscaler, pod: Pod) -> Result<PlanView, Seq<char>> {
    let pod_name = any_name(pod.metadata);
    match pod.metadata.namespace {
        None => Err("Pod "@ + pod_name + " has no namespace"@),
        Some(namespace) => match epa.metadata.name {
            None => Err("EPA missing name metadata"@),
            Some(epa_name) => match pod_address(pod) {
                None => Err("Pod "@ + pod_name + " has no IP"@),
                Some(ip) => match duration_of(epa.spec.scrape.timeout@) {
                    Err(m) => Err(m),
                    Ok(timeout) => Ok(
                        PlanView {
                            pod_name,
                            namespace: namespace@,
                            epa_name: epa_name@,
                            url: metrics_url(epa, ip),
                            timeout,
                        },
                    ),
                },
            },
        },
    }
}

fn about_pod(pod_name: &str, fault: &str) -> (r: String)
    ensures
        r@ == "Pod "@ + pod_name@ + fault@,
{
    let mut m = "Pod ".to_owned();
    m.append(pod_name);
    m.append(fault);
    m
}

fn ip_of(pod: &Pod) -> (r: Option<&String>)
    ensures
        pod_address(*pod) == (match r {
            Some(ip) => Some(ip@),
            None => None,
        }),
{
    match &pod.status {
        Some(status) => match &status.pod_ip {
            Some(ip) => Some(ip),
            None => None,
        },
        None => None,
    }
}

fn url_of(epa: &ExternalPodAutoscaler, ip: &str) -> (r: String)
    ensures
        r@ == metrics_url(*epa, ip@),
{
    let scrape = &epa.spec.scrape;
    let mut url = scrape.scheme.clone();
    url.append("://");
    url.append(ip);
    url.append(":");
    url.append(signed_text(scrape.port as i64).as_str());
    url.append(scrape.path.as_str());
    url
}

/// The request that a scrape of a pod makes.
pub fn plan_scrape(epa: &ExternalPodAutoscaler, pod: &Pod) -> (r: Result<ScrapePlan, String>)
    ensures
        match r {
            Ok(plan) => plan_of(*epa, *pod) == Ok::<PlanView, Seq<char>>(plan@) && plan.timeout
                <= LONGEST,
            Err(m) => plan_of(*epa, *pod) == Err::<PlanView, Seq<char>>(m@),
        },
{
    let pod_name = name_any(&pod.metadata);
    let namespace = match &pod.metadata.namespace {
        Some(namespace) => namespace.clone(),
        None => {
            return Err(about_pod(pod_name.as_str(), " has no namespace"));
        },
    };
    let epa_name = match &epa.metadata.name {
        Some(name) => name.clone(),
        None => {
            return Err("EPA missing name metadata".to_owned());
        },
    };
    let url = match ip_of(pod) {
        Some(ip) => url_of(epa, ip.as_str()),
        None => {
            return Err(about_pod(pod_name.as_str(), " has no IP"));
        },
    };
    match parse_duration(epa.spec.scrape.timeout.as_str()) {
        Ok(timeout) => Ok(ScrapePlan { pod_name, namespace, epa_name, url, timeout }),
        Err(m) => Err(m),
    }
}

// ---------------------------------------------------------------------------
// What the pod answered
// ---------------------------------------------------------------------------

/// What became of a request to a pod.
#[derive(Debug)]
pub enum Fetched {
    /// The request could not be made, for this reason.
    HttpError(String),
    /// No answer came in time.
    TimedOut,
    /// An answer came.
    Answered {
        /// Status code
        status: u16,
        /// The status as it is shown, such as `404 Not Found`
        status_text: String,
        /// What reading the body came to; it counts only where the status is a success
        body: Result<String, String>,
    },
}

/// Whether a status code is that of a success.
pub open spec fn success_code(status: u16) -> bool {
    200 <= status < 300
}

/// Whether a status code is that of a success.
pub fn is_success(status: u16) -> (r: bool)
    ensures
        r == success_code(status),
{
    200 <= status && status < 300
}

/// The text that a pod answered with, or the report of why there is none.
pub open spec fn answer_of(fetched: Fetched, pod_name: Seq<char>) -> Result<Seq<char>, Seq<char>> {
    match fetched {
        Fetched::HttpError(m) => Err("HTTP error: "@ + m@),
        Fetched::TimedOut => Err("Request timeout"@),
        Fetched::Answered { status, status_text, body } => if !success_code(status) {
            Err("HTTP "@ + status_text@ + " from pod "@ + pod_name)
        } else {
            match body {
                Ok(text) => Ok(text@),
                Err(m) => Err("Failed to read response: "@ + m@),
            }
        },
    }
}

/// The text that a pod answered with.
pub fn answer(fetched: Fetched, pod_name: &str) -> (r: Result<String, String>)
    ensures
        match r {
            Ok(text) => answer_of(fetched, pod_name@) == Ok::<Seq<char>, Seq<char>>(text@),
            Err(m) => answer_of(fetched, pod_name@) == Err::<Seq<char>, Seq<char>>(m@),
        },
{
    match fetched {
        Fetched::HttpError(reason) => {
            let mut m = "HTTP error: ".to_owned();
            m.append(reason.as_str());
            Err(m)
        },
        Fetched::TimedOut => Err("Request timeout".to_owned()),
        Fetched::Answered { status, status_text, body } => {
            if !is_success(status) {
                let mut m = "HTTP ".to_owned();
                m.append(status_text.as_str());
                m.append(" from pod ");
                m.append(pod_name);
                return Err(m);
            }
            match body {
                Ok(text) => Ok(text),
                Err(reason) => {
                    let mut m = "Failed to read response: ".to_owned();
                    m.append(reason.as_str());
                    Err(m)
                },
            }
        },
    }
}

// ---------------------------------------------------------------------------
// What is stored
// ---------------------------------------------------------------------------

/// Whether a metric that a pod reports is one that a resource asks for.
pub open spec fn asked_for(spec: MetricSpec, metric: MetricView) -> bool {
    &&& metric.name == spec.metric_name@
    &&& spec.label_selector matches Some(selector) ==> admits(selector, metric.labels)
}

/// The sample that is stored of a metric.
pub open spec fn sample_of(metric: MetricView, scraped_at: u64) -> SampleView {
    SampleView {
        value: metric.value,
        scraped_at,
        success: true,
        metric_type: metric.metric_type,
    }
}

/// Which windows the samples of a scrape go to, and when they were taken.
pub struct Target {
    pub namespace: Seq<char>,
    pub epa_name: Seq<char>,
    pub pod_name: Seq<char>,
    pub max_samples: nat,
    pub scraped_at: u64,
}

/// The store once the metrics that `spec` asks for were stored, in the order in which
/// the pod reports them.
pub open spec fn metrics_stored(
    store: StoreView,
    spec: MetricSpec,
    metrics: Seq<MetricView>,
    to: Target,
) -> StoreView
    decreases metrics.len(),
{
    if metrics.len() == 0 {
        store
    } else {
        let before = metrics_stored(store, spec, metrics.drop_last(), to);
        if asked_for(spec, metrics.last()) {
            before.sample_pushed(
                window_key(to.namespace, to.epa_name, spec.metric_name@, to.pod_name),
                sample_of(metrics.last(), to.scraped_at),
                to.max_samples,
            )
        } else {
            before
        }
    }
}

/// The store once the metrics that a resource asks for were stored, in the order in
/// which it lists them.
pub open spec fn scrape_stored(
    store: StoreView,
    specs: Seq<MetricSpec>,
    metrics: Seq<MetricView>,
    to: Target,
) -> StoreView
    decreases specs.len(),
{
    if specs.len() == 0 {
        store
    } else {
        metrics_stored(
            scrape_stored(store, specs.drop_last(), metrics, to),
            specs.last(),
            metrics,
            to,
        )
    }
}

fn wants(spec: &MetricSpec, metric: &PrometheusMetric) -> (r: bool)
    ensures
        r == asked_for(*spec, metric@),
{
    if !same(metric.name.as_str(), spec.metric_name.as_str()) {
        return false;
    }
    match &spec.label_selector {
        Some(selector) => matches_label_selector(&metric.labels, selector),
        None => true,
    }
}

fn store_metrics(
    store: &mut MetricsStore,
    spec: &MetricSpec,
    metrics: &Vec<PrometheusMetric>,
    plan: &ScrapePlan,
    max_samples: usize,
    scraped_at: u64,
)
    ensures
        final(store)@ == metrics_stored(
            old(store)@,
            *spec,
            metric_views(metrics@),
            (Target {
                namespace: plan.namespace@,
                epa_name: plan.epa_name@,
                pod_name: plan.pod_name@,
                max_samples: max_samples as nat,
                scraped_at,
            }),
        ),
{
    let ghost to = Target {
        namespace: plan.namespace@,
        epa_name: plan.epa_name@,
        pod_name: plan.pod_name@,
        max_samples: max_samples as nat,
        scraped_at,
    };
    let ghost all = metric_views(metrics@);
    let ghost start = store@;
    let mut i: usize = 0;
    assert(all.take(0) =~= seq![]);
    while i < metrics.len()
        invariant
            i <= metrics@.len(),
            all == metric_views(metrics@),
            to == (Target {
                namespace: plan.namespace@,
                epa_name: plan.epa_name@,
                pod_name: plan.pod_name@,
                max_samples: max_samples as nat,
                scraped_at,
            }),
            store@ == metrics_stored(start, *spec, all.take(i as int), to),
        decreases metrics.len() - i,
    {
        let metric = &metrics[i];
        proof {
            assert(all.take(i + 1).drop_last() =~= all.take(i as int));
            assert(all.take(i + 1).last() == metric@);
        }
        if wants(spec, metric) {
            let key = SampleKey::new(
                plan.namespace.clone(),
                plan.epa_name.clone(),
                spec.metric_name.clone(),
                plan.pod_name.clone(),
            );
            let sample = LabeledSample {
                value: metric.value.clone(),
                scraped_at,
                success: true,
                metric_type: metric.metric_type,
            };
            store.push_sample(key, sample, max_samples);
        }
        i += 1;
    }
    assert(all.take(i as int) =~= all);
}

fn store_scrape(
    store: &mut MetricsStore,
    specs: &Vec<MetricSpec>,
    metrics: &Vec<PrometheusMetric>,
    plan: &ScrapePlan,
    max_samples: usize,
    scraped_at: u64,
)
    ensures
        final(store)@ == scrape_stored(
            old(store)@,
            specs@,
            metric_views(metrics@),
            (Target {
                namespace: plan.namespace@,
                epa_name: plan.epa_name@,
                pod_name: plan.pod_name@,
                max_samples: max_samples as nat,
                scraped_at,
            }),
        ),
{
    let ghost to = Target {
        namespace: plan.namespace@,
        epa_name: plan.epa_name@,
        pod_name: plan.pod_name@,
        max_samples: max_samples as nat,
        scraped_at,
    };
    let ghost all = metric_views(metrics@);
    let ghost start = store@;
    let mut i: usize = 0;
    assert(specs@.take(0) =~= seq![]);
    while i < specs.len()
        invariant
            i <= specs@.len(),
            all == metric_views(metrics@),
            to == (Target {
                namespace: plan.namespace@,
                epa_name: plan.epa_name@,
                pod_name: plan.pod_name@,
                max_samples: max_samples as nat,
                scraped_at,
            }),
            store@ == scrape_stored(start, specs@.take(i as int), all, to),
        decreases specs.len() - i,
    {
        assert(specs@.take(i + 1).drop_last() =~= specs@.take(i as int));
        store_metrics(store, &specs[i], metrics, plan, max_samples, scraped_at);
        i += 1;
    }
    assert(specs@.take(i as int) =~= specs@);
}

/// What a scrape of a pod comes to: the store after it, and the report where it failed.
pub open spec fn scraped(
    store: StoreView,
    epa: ExternalPodAutoscaler,
    pod: Pod,
    max_samples: nat,
    fetched: Fetched,
    scraped_at: u64,
) -> (StoreView, Option<Seq<char>>) {
    match plan_of(epa, pod) {
        Err(m) => (store, Some(m)),
        Ok(plan) => match answer_of(fetched, plan.pod_name) {
            Err(m) => (store, Some(m)),
            Ok(text) => match read_text(text) {
                Progress::Failed(m) => (store, Some(m)),
                Progress::Reading { metrics, .. } => (
                    scrape_stored(
                        store,
                        epa.spec.metrics@,
                        metrics,
                        Target {
                            namespace: plan.namespace,
                            epa_name: plan.epa_name,
                            pod_name: plan.pod_name,
                            max_samples,
                            scraped_at,
                        },
                    ),
                    None,
                ),
                Progress::Stuck => (store, None),
            },
        },
    }
}

/// Whether an answer can be read to its end, where there is one.
pub open spec fn readable_answer(fetched: Fetched) -> bool {
    match fetched {
        Fetched::Answered { status, body: Ok(text), .. } => success_code(status) ==> readable_text(
            text@,
        ),
        _ => true,
    }
}

/// Scrape a single pod: of what the pod answered, stores a sample of each metric that
/// the resource asks for. A metric that the pod does not report is passed over.
/// Nothing is stored where the request could not be made, failed, was refused or was
/// answered with what cannot be read.
pub fn scrape_pod_static(
    epa: &ExternalPodAutoscaler,
    pod: &Pod,
    store: &mut MetricsStore,
    max_samples: usize,
    fetched: Fetched,
    scraped_at: u64,
) -> (r: Result<(), String>)
    requires
        readable_answer(fetched),
    ensures
        ({
            let after = scraped(
                old(store)@,
                *epa,
                *pod,
                max_samples as nat,
                fetched,
                scraped_at,
            );
            &&& final(store)@ == after.0
            &&& match r {
                Ok(()) => after.1 is None,
                Err(m) => after.1 == Some(m@),
            }
        }),
{
    let plan = match plan_scrape(epa, pod) {
        Ok(plan) => plan,
        Err(m) => {
            return Err(m);
        },
    };
    let text = match answer(fetched, plan.pod_name.as_str()) {
        Ok(text) => text,
        Err(m) => {
            return Err(m);
        },
    };
    match parse_prometheus_text(text.as_str()) {
        Ok(metrics) => {
            store_scrape(store, &epa.spec.metrics, &metrics, &plan, max_samples, scraped_at);
            Ok(())
        },
        Err(m) => Err(m),
    }
}

/// The name under which the scrapes of a resource are counted.
pub open spec fn counted_name(name: Option<String>, otherwise: Seq<char>) -> Seq<char> {
    match name {
        Some(name) => name@,
        None => otherwise,
    }
}

/// Counts a scrape for a resource, by whether it succeeded.
pub fn record_outcome(store: &mut MetricsStore, epa: &ExternalPodAutoscaler, success: bool)
    ensures
        ({
            let key = resource_key(
                counted_name(epa.metadata.namespace, "<no-namespace>"@),
                counted_name(epa.metadata.name, "<unnamed>"@),
            );
            final(store)@ == old(store)@.stat_set(
                key,
                one_counted(old(store)@.stat(key), success),
            )
        }),
{
    let namespace = match &epa.metadata.namespace {
        Some(namespace) => namespace.clone(),
        None => "<no-namespace>".to_owned(),
    };
    let name = match &epa.metadata.name {
        Some(name) => name.clone(),
        None => "<unnamed>".to_owned(),
    };
    let stats = store.get_scrape_stats(namespace.as_str(), name.as_str());
    if success {
        stats.record_success(store);
    } else {
        stats.record_error(store);
    }
}

} // verus!
