//! What the store holds.

use crate::apis::externalpodautoscaler::AggregationType;
use crate::duration::{elapsed, since};
use vstd::prelude::*;

verus! {

/// Type of a scraped metric.
#[derive(Debug, Clone, Copy, PartialEq, Eq, Structural)]
pub enum MetricType {
    /// A value at a point in time, aggregated as configured
    Gauge,
    /// A value that only grows, of which the rate of change is taken
    Counter,
}

/// One sample of a scrape.
#[derive(Debug)]
pub struct LabeledSample {
    /// The value, as the literal of a floating-point number
    pub value: String,
    /// When the sample was scraped, in nanoseconds of the process's clock
    pub scraped_at: u64,
    /// Whether the scrape was successful
    pub success: bool,
    /// Type of metric (gauge or counter)
    pub metric_type: MetricType,
}

/// What a sample stands for.
pub struct SampleView {
    pub value: Seq<char>,
    pub scraped_at: u64,
    pub success: bool,
    pub metric_type: MetricType,
}

impl View for LabeledSample {
    type V = SampleView;

    open spec fn view(&self) -> SampleView {
        SampleView {
            value: self.value@,
            scraped_at: self.scraped_at,
            success: self.success,
            metric_type: self.metric_type,
        }
    }
}

/// What a list of samples stands for.
pub open spec fn sample_views(samples: Seq<LabeledSample>) -> Seq<SampleView> {
    samples.map_values(|s: LabeledSample| s@)
}

impl Clone for LabeledSample {
    fn clone(&self) -> (r: LabeledSample)
        ensures
            r@ == self@,
    {
        LabeledSample {
            value: self.value.clone(),
            scraped_at: self.scraped_at,
            success: self.success,
            metric_type: self.metric_type,
        }
    }
}

/// Identifies a window: one metric of one pod, as one resource asks for it.
#[derive(Debug, Clone, PartialEq, Eq, Hash)]
pub struct SampleKey {
    /// Kubernetes namespace
    pub namespace: String,
    /// ExternalPodAutoscaler name
    pub epa_name: String,
    /// Metric name being tracked
    pub metric_name: String,
    /// Pod name being scraped
    pub pod_name: String,
}

impl SampleKey {
    /// The parts of the key.
    pub open spec fn parts(self) -> Seq<Seq<char>> {
        window_key(self.namespace@, self.epa_name@, self.metric_name@, self.pod_name@)
    }

    /// Creates a new sample key.
    pub fn new(
        namespace: String,
        epa_name: String,
        metric_name: String,
        pod_name: String,
    ) -> (r: SampleKey)
        ensures
            r.namespace == namespace,
            r.epa_name == epa_name,
            r.metric_name == metric_name,
            r.pod_name == pod_name,
    {
        SampleKey { namespace, epa_name, metric_name, pod_name }
    }
}

/// Identifies an aggregated metric of a resource, across all pods.
#[derive(Debug, Clone, PartialEq, Eq, Hash)]
pub struct CacheKey {
    /// Kubernetes namespace
    pub namespace: String,
    /// ExternalPodAutoscaler name
    pub epa_name: String,
    /// Metric name
    pub metric_name: String,
}

impl CacheKey {
    /// The parts of the key.
    pub open spec fn parts(self) -> Seq<Seq<char>> {
        metric_key(self.namespace@, self.epa_name@, self.metric_name@)
    }

    /// Creates a new cache key.
    pub fn new(namespace: String, epa_name: String, metric_name: String) -> (r: CacheKey)
        ensures
            r.namespace == namespace,
            r.epa_name == epa_name,
            r.metric_name == metric_name,
    {
        CacheKey { namespace, epa_name, metric_name }
    }
}

/// The key of a window, by its parts.
pub open spec fn window_key(
    namespace: Seq<char>,
    epa_name: Seq<char>,
    metric_name: Seq<char>,
    pod_name: Seq<char>,
) -> Seq<Seq<char>> {
    seq![namespace, epa_name, metric_name, pod_name]
}

/// The key of a metric of a resource, by its parts.
pub open spec fn metric_key(
    namespace: Seq<char>,
    epa_name: Seq<char>,
    metric_name: Seq<char>,
) -> Seq<Seq<char>> {
    seq![namespace, epa_name, metric_name]
}

/// The key of a resource, by its parts.
pub open spec fn resource_key(namespace: Seq<char>, epa_name: Seq<char>) -> Seq<Seq<char>> {
    seq![namespace, epa_name]
}

/// An aggregated value and how long it may be used.
#[derive(Debug, Clone, Copy, PartialEq, Eq, Structural)]
pub struct CachedAggregation {
    /// Aggregated metric value, as the bits of a floating-point number
    pub value: u64,
    /// When the aggregation was computed, in nanoseconds of the process's clock
    pub computed_at: u64,
    /// Time-to-live for this cached value, in nanoseconds
    pub ttl: u128,
}

impl CachedAggregation {
    /// Whether the value may still be used.
    pub open spec fn valid(self, now: u64) -> bool {
        elapsed(now, self.computed_at) < self.ttl
    }

    /// Creates a cached aggregation that was computed at `now`.
    pub fn new(value: u64, ttl: u128, now: u64) -> (r: CachedAggregation)
        ensures
            r.value == value,
            r.computed_at == now,
            r.ttl == ttl,
    {
        CachedAggregation { value, computed_at: now, ttl }
    }

    /// Returns true if this cached value is still valid (within TTL).
    pub fn is_valid(&self, now: u64) -> (r: bool)
        ensures
            r == self.valid(now),
    {
        (since(now, self.computed_at) as u128) < self.ttl
    }
}

/// The evaluation period of a metric for which none is known: a minute.
pub const DEFAULT_EVALUATION_PERIOD: u128 = 60_000_000_000;

/// How a metric is aggregated.
#[derive(Debug, Clone, Copy, PartialEq, Eq, Structural)]
pub struct MetricConfig {
    /// Aggregation type (avg, max, min, median, last)
    pub aggregation_type: AggregationType,
    /// The window over which samples are aggregated, in nanoseconds
    pub evaluation_period: u128,
}

impl MetricConfig {
    /// Creates a new metric configuration with the usual evaluation period.
    pub fn new(aggregation_type: AggregationType) -> (r: MetricConfig)
        ensures
            r.aggregation_type == aggregation_type,
            r.evaluation_period == DEFAULT_EVALUATION_PERIOD,
    {
        MetricConfig { aggregation_type, evaluation_period: DEFAULT_EVALUATION_PERIOD }
    }

    /// Creates a new metric configuration.
    pub fn with_period(aggregation_type: AggregationType, evaluation_period: u128) -> (r:
        MetricConfig)
        ensures
            r.aggregation_type == aggregation_type,
            r.evaluation_period == evaluation_period,
    {
        MetricConfig { aggregation_type, evaluation_period }
    }
}

/// The configuration of a metric for which none is known.
pub open spec fn default_config() -> MetricConfig {
    MetricConfig {
        aggregation_type: AggregationType::Avg,
        evaluation_period: DEFAULT_EVALUATION_PERIOD,
    }
}

impl Default for MetricConfig {
    fn default() -> (r: MetricConfig)
        ensures
            r == default_config(),
    {
        MetricConfig::new(AggregationType::Avg)
    }
}

/// Counts of successes and failures, once one more of either was counted. They wrap
/// around.
pub open spec fn one_counted(counts: (i32, i32), success: bool) -> (i32, i32) {
    if success {
        (counts.0.wrapping_add(1), counts.1)
    } else {
        (counts.0, counts.1.wrapping_add(1))
    }
}

/// Counts of successes and failures, once others were added to them. They wrap around.
pub open spec fn counts_added(counts: (i32, i32), more: (i32, i32)) -> (i32, i32) {
    (counts.0.wrapping_add(more.0), counts.1.wrapping_add(more.1))
}

/// How many scrapes for a resource succeeded and how many failed. The counters wrap
/// around.
#[derive(Debug, Clone, Copy, PartialEq, Eq, Structural)]
pub struct ScrapeStats {
    scraped: i32,
    errors: i32,
}

impl ScrapeStats {
    /// The numbers of successful and of failed scrapes.
    pub closed spec fn counts(self) -> (i32, i32) {
        (self.scraped, self.errors)
    }

    /// Nothing counted.
    pub fn new() -> (r: ScrapeStats)
        ensures
            r.counts() == (0i32, 0i32),
    {
        ScrapeStats { scraped: 0, errors: 0 }
    }

    /// Counts a successful scrape.
    pub fn record_success(&mut self)
        ensures
            final(self).counts() == one_counted(old(self).counts(), true),
    {
        self.scraped = self.scraped.wrapping_add(1);
    }

    /// Counts a failed scrape.
    pub fn record_error(&mut self)
        ensures
            final(self).counts() == one_counted(old(self).counts(), false),
    {
        self.errors = self.errors.wrapping_add(1);
    }

    /// What was counted, after which counting starts anew.
    pub fn snapshot_and_reset(&mut self) -> (r: (i32, i32))
        ensures
            r == old(self).counts(),
            final(self).counts() == (0i32, 0i32),
    {
        let r = (self.scraped, self.errors);
        self.scraped = 0;
        self.errors = 0;
        r
    }

    /// Counts what an earlier snapshot took away.
    pub fn restore(&mut self, scraped: i32, errors: i32)
        ensures
            final(self).counts() == counts_added(old(self).counts(), (scraped, errors)),
    {
        self.scraped = self.scraped.wrapping_add(scraped);
        self.errors = self.errors.wrapping_add(errors);
    }
}

impl Default for ScrapeStats {
    fn default() -> (r: ScrapeStats)
        ensures
            r.counts() == (0i32, 0i32),
    {
        ScrapeStats::new()
    }
}

} // verus!
