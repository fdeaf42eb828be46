//! The `Metric` resource.

use crate::labels::Labels;
use vstd::prelude::*;

verus! {

/// Status of a condition
#[derive(Debug, Clone, Copy, PartialEq, Eq, Structural)]
pub enum ConditionStatus {
    True,
    False,
    Unknown,
}

/// What a `Metric` asks for.
#[derive(Debug, Clone)]
pub struct MetricSpec {
    /// Selector for finding scrape targets
    pub selector: Selector,
    /// Target configuration
    pub target: MetricTarget,
}

/// Metric target configuration
#[derive(Debug, Clone)]
pub struct MetricTarget {
    /// Port to scrape metrics from
    pub port: i32,
    /// HTTP path to scrape metrics from (e.g., "/metrics")
    pub path: String,
    /// Scrape interval in seconds
    pub interval_seconds: i32,
    /// Scrape timeout in seconds
    pub timeout_seconds: i32,
    /// Prometheus metric name to scrape
    pub metric_name: String,
    /// Type of metric value (gauge or counter)
    pub value_type: MetricValueType,
    /// Window duration
    pub window_duration_seconds: i32,
    /// Aggregation to compute
    pub aggregation: AggregationType,
}

/// A metric target as it is written down: what may be left out is optional.
#[derive(Debug, Clone)]
pub struct MetricTargetFields {
    pub port: Option<i32>,
    pub path: Option<String>,
    pub interval_seconds: Option<i32>,
    pub timeout_seconds: Option<i32>,
    pub metric_name: String,
    pub value_type: Option<MetricValueType>,
    pub window_duration_seconds: Option<i32>,
    pub aggregation: Option<AggregationType>,
}

/// The value of an optional field, or its default.
pub open spec fn or_default<T>(field: Option<T>, default: T) -> T {
    match field {
        Some(v) => v,
        None => default,
    }
}

/// The aggregation of a metric whose target names none.
pub open spec fn natural_aggregation(value_type: MetricValueType) -> AggregationType {
    match value_type {
        MetricValueType::Gauge => AggregationType::Avg,
        MetricValueType::Counter => AggregationType::Rate,
    }
}

impl MetricTarget {
    /// Fills in what a target leaves out. The aggregation follows the value type:
    /// the average of a gauge, the rate of a counter.
    pub fn deserialize(fields: MetricTargetFields) -> (r: MetricTarget)
        ensures
            r.port == or_default(fields.port, 8080i32),
            r.path@ == (match fields.path {
                Some(p) => p@,
                None => "/metrics"@,
            }),
            r.interval_seconds == or_default(fields.interval_seconds, 30i32),
            r.timeout_seconds == or_default(fields.timeout_seconds, 10i32),
            r.metric_name == fields.metric_name,
            r.value_type == or_default(fields.value_type, MetricValueType::Gauge),
            r.window_duration_seconds == or_default(fields.window_duration_seconds, 120i32),
            r.aggregation == or_default(fields.aggregation, natural_aggregation(r.value_type)),
    {
        let value_type = match fields.value_type {
            Some(v) => v,
            None => MetricValueType::default(),
        };
        let aggregation = match fields.aggregation {
            Some(a) => a,
            None => match value_type {
                MetricValueType::Gauge => AggregationType::Avg,
                MetricValueType::Counter => AggregationType::Rate,
            },
        };
        MetricTarget {
            port: match fields.port {
                Some(v) => v,
                None => default_port(),
            },
            path: match fields.path {
                Some(v) => v,
                None => default_path(),
            },
            interval_seconds: match fields.interval_seconds {
                Some(v) => v,
                None => default_scrape_interval_seconds(),
            },
            timeout_seconds: match fields.timeout_seconds {
                Some(v) => v,
                None => default_scrape_timeout_seconds(),
            },
            metric_name: fields.metric_name,
            value_type,
            window_duration_seconds: match fields.window_duration_seconds {
                Some(v) => v,
                None => default_window_duration_seconds(),
            },
            aggregation,
        }
    }
}

/// Type of metric value
#[derive(Debug, Clone, Copy, PartialEq, Eq, Structural)]
pub enum MetricValueType {
    Gauge,
    Counter,
}

impl Default for MetricValueType {
    fn default() -> (r: MetricValueType)
        ensures
            r == MetricValueType::Gauge,
    {
        MetricValueType::Gauge
    }
}

/// Aggregation type for metrics
#[derive(Debug, Clone, Copy, PartialEq, Eq, Structural)]
pub enum AggregationType {
    Avg,
    Sum,
    Min,
    Max,
    Rate,
}

/// Selector for finding scrape targets
#[derive(Debug, Clone)]
pub struct Selector {
    /// Labels that must all have these values
    pub match_labels: Option<Labels>,
    /// Requirements that must all be met
    pub match_expressions: Option<Vec<SelectorRequirement>>,
}

/// Selector requirement for match expressions
#[derive(Debug, Clone)]
pub struct SelectorRequirement {
    /// Label key to match against
    pub key: String,
    /// Operator for matching
    pub operator: SelectorOperator,
    /// Values to match (for `In` and `NotIn`)
    pub values: Option<Vec<String>>,
}

/// Selector operator
#[derive(Debug, Clone, Copy, PartialEq, Eq, Structural)]
pub enum SelectorOperator {
    /// Key must equal one of the values
    In,
    /// Key must not equal any of the values
    NotIn,
    /// Key must exist (value doesn't matter)
    Exists,
    /// Key must not exist
    DoesNotExist,
}

/// Status of the Metric resource
#[derive(Debug, Clone)]
pub struct MetricStatus {
    /// Total number of scrape targets (pods)
    pub total_targets: i32,
    /// Number of successfully scraped targets
    pub scraped_targets: i32,
    /// Last successful scrape timestamp
    pub last_scrape_time: Option<String>,
}

impl Default for MetricStatus {
    fn default() -> (r: MetricStatus)
        ensures
            r.total_targets == 0,
            r.scraped_targets == 0,
            r.last_scrape_time is None,
    {
        MetricStatus { total_targets: 0, scraped_targets: 0, last_scrape_time: None }
    }
}

/// The port that is scraped by default.
pub fn default_port() -> (r: i32)
    ensures
        r == 8080,
{
    8080
}

/// The path that is scraped by default.
pub fn default_path() -> (r: String)
    ensures
        r@ == "/metrics"@,
{
    "/metrics".to_owned()
}

/// How often a target is scraped by default, in seconds.
pub fn default_scrape_interval_seconds() -> (r: i32)
    ensures
        r == 30,
{
    30
}

/// How long a scrape may take by default, in seconds.
pub fn default_scrape_timeout_seconds() -> (r: i32)
    ensures
        r == 10,
{
    10
}

/// The window over which samples are aggregated by default, in seconds.
pub fn default_window_duration_seconds() -> (r: i32)
    ensures
        r == 120,
{
    120
}

} // verus!
