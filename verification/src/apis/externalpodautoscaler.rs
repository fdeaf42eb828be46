//! The `ExternalPodAutoscaler` resource.

use crate::k8s::ObjectMeta;
use crate::labels::Labels;
use vstd::prelude::*;

verus! {

/// An `ExternalPodAutoscaler` (EPA) resource.
#[derive(Debug, Clone)]
pub struct ExternalPodAutoscaler {
    pub metadata: ObjectMeta,
    pub spec: ExternalPodAutoscalerSpec,
    pub status: Option<ExternalPodAutoscalerStatus>,
}

/// What an `ExternalPodAutoscaler` asks for.
#[derive(Debug, Clone)]
pub struct ExternalPodAutoscalerSpec {
    /// Minimum number of replicas
    pub min_replicas: i32,
    /// Maximum number of replicas
    pub max_replicas: i32,
    /// Scrape configuration
    pub scrape: ScrapeConfig,
    /// The workload to scrape, where it is not the one to scale
    pub scrape_target_ref: Option<TargetRef>,
    /// The workload to scale
    pub scale_target_ref: TargetRef,
    /// Metrics to scrape and use for scaling
    pub metrics: Vec<MetricSpec>,
    /// Scaling behavior, handed on to the managed autoscaler
    pub behavior: Option<ScalingBehavior>,
}

/// Scrape configuration
#[derive(Debug, Clone)]
pub struct ScrapeConfig {
    /// Port to scrape metrics from
    pub port: i32,
    /// HTTP path to scrape metrics from
    pub path: String,
    /// Scrape interval (e.g., "15s", "1m")
    pub interval: String,
    /// Scrape timeout per target (e.g., "1s")
    pub timeout: String,
    /// Scheme (http or https)
    pub scheme: String,
    /// TLS configuration
    pub tls: Option<TlsConfig>,
    /// Evaluation period for metric aggregation (e.g., "5m")
    pub evaluation_period: String,
    /// Default aggregation type for metrics
    pub aggregation_type: AggregationType,
}

/// TLS configuration for HTTPS scraping
#[derive(Debug, Clone, Copy)]
pub struct TlsConfig {
    /// Skip TLS certificate verification
    pub insecure_skip_verify: bool,
}

/// Reference to a Kubernetes resource
#[derive(Debug, Clone)]
pub struct TargetRef {
    /// API version of the referent
    pub api_version: String,
    /// Kind of the referent (e.g., Deployment, StatefulSet)
    pub kind: String,
    /// Name of the referent
    pub name: String,
}

impl TargetRef {
    /// A copy of the reference.
    pub fn copy(&self) -> (r: TargetRef)
        ensures
            r == *self,
    {
        TargetRef {
            api_version: self.api_version.clone(),
            kind: self.kind.clone(),
            name: self.name.clone(),
        }
    }
}

/// Metric specification
#[derive(Debug, Clone)]
pub struct MetricSpec {
    /// Prometheus metric name to scrape, exposed as the external metric
    /// `{name}-{namespace}-{metric}`
    pub metric_name: String,
    /// Target type of the managed autoscaler's metric
    pub type_: MetricTargetType,
    /// Target value for scaling
    pub target_value: String,
    /// Aggregation type, where it is not that of the scrape configuration
    pub aggregation_type: Option<AggregationType>,
    /// Evaluation period, where it is not that of the scrape configuration
    pub evaluation_period: Option<String>,
    /// Label selector for filtering metric samples
    pub label_selector: Option<LabelSelector>,
}

/// Target type of a metric
#[derive(Debug, Clone, Copy, PartialEq, Eq, Structural)]
pub enum MetricTargetType {
    /// Divide metric value by current replica count
    AverageValue,
    /// Use metric value directly
    Value,
}

impl Default for MetricTargetType {
    fn default() -> (r: MetricTargetType)
        ensures
            r == MetricTargetType::AverageValue,
    {
        MetricTargetType::AverageValue
    }
}

/// How the samples of one pod are made into one value.
#[derive(Debug, Clone, Copy, PartialEq, Eq, Structural)]
pub enum AggregationType {
    Avg,
    Max,
    Min,
    Median,
    Last,
}

impl Default for AggregationType {
    fn default() -> (r: AggregationType)
        ensures
            r == AggregationType::Avg,
    {
        AggregationType::Avg
    }
}

/// Label selector for filtering metric samples
#[derive(Debug, Clone)]
pub struct LabelSelector {
    /// Labels that must all have these values
    pub match_labels: Option<Labels>,
    /// Requirements that must all be met
    pub match_expressions: Option<Vec<LabelSelectorRequirement>>,
}

/// Label selector requirement
#[derive(Debug, Clone)]
pub struct LabelSelectorRequirement {
    /// Label key
    pub key: String,
    /// Operator
    pub operator: LabelSelectorOperator,
    /// Values (for `In` and `NotIn`)
    pub values: Option<Vec<String>>,
}

/// Label selector operator
#[derive(Debug, Clone, Copy, PartialEq, Eq, Structural)]
pub enum LabelSelectorOperator {
    In,
    NotIn,
    Exists,
    DoesNotExist,
}

/// Scaling behavior
#[derive(Debug, Clone)]
pub struct ScalingBehavior {
    /// Scale up behavior
    pub scale_up: Option<ScalingRules>,
    /// Scale down behavior
    pub scale_down: Option<ScalingRules>,
}

/// Scaling rules
#[derive(Debug, Clone)]
pub struct ScalingRules {
    /// Stabilization window in seconds
    pub stabilization_window_seconds: Option<i32>,
    /// Scaling policies
    pub policies: Option<Vec<ScalingPolicy>>,
    /// Policy selection (Min, Max, Disabled)
    pub select_policy: Option<String>,
}

/// Scaling policy
#[derive(Debug, Clone)]
pub struct ScalingPolicy {
    /// Type (Pods or Percent)
    pub type_: String,
    /// Value
    pub value: i32,
    /// Period in seconds
    pub period_seconds: i32,
}

/// Status of the ExternalPodAutoscaler resource
#[derive(Debug, Clone)]
pub struct ExternalPodAutoscalerStatus {
    /// Managed autoscaler
    pub managed_hpa: Option<ManagedHpaStatus>,
    /// Scraped replica count
    pub scraped_replicas: Option<i32>,
    /// Scrape error count
    pub scrape_errors: Option<i32>,
    /// Conditions
    pub conditions: Vec<Condition>,
}

impl Default for ExternalPodAutoscalerStatus {
    fn default() -> (r: ExternalPodAutoscalerStatus)
        ensures
            r.managed_hpa is None,
            r.scraped_replicas is None,
            r.scrape_errors is None,
            r.conditions@ == Seq::<Condition>::empty(),
    {
        ExternalPodAutoscalerStatus {
            managed_hpa: None,
            scraped_replicas: None,
            scrape_errors: None,
            conditions: Vec::new(),
        }
    }
}

/// Status of the managed autoscaler
#[derive(Debug, Clone)]
pub struct ManagedHpaStatus {
    /// Name of the managed autoscaler
    pub name: String,
    /// Last sync time
    pub last_sync_time: Option<String>,
}

/// Condition
#[derive(Debug, Clone)]
pub struct Condition {
    /// Condition type
    pub type_: String,
    /// Condition status
    pub status: String,
    /// Last transition time
    pub last_transition_time: String,
    /// Reason
    pub reason: String,
    /// Message
    pub message: String,
}

/// The number of replicas below which a workload is not scaled, by default.
pub fn default_min_replicas() -> (r: i32)
    ensures
        r == 1,
{
    1
}

/// The port that is scraped by default.
pub fn default_port() -> (r: i32)
    ensures
        r == 8080,
{
    8080
}

/// The path that is scraped by default.
pub fn default_path() -> (r: String)
    ensures
        r@ == "/metrics"@,
{
    "/metrics".to_owned()
}

/// How often a pod is scraped by default.
pub fn default_interval() -> (r: String)
    ensures
        r@ == "15s"@,
{
    "15s".to_owned()
}

/// How long a scrape may take by default.
pub fn default_timeout() -> (r: String)
    ensures
        r@ == "1s"@,
{
    "1s".to_owned()
}

/// The scheme that pods are scraped with by default.
pub fn default_scheme() -> (r: String)
    ensures
        r@ == "http"@,
{
    "http".to_owned()
}

/// The window over which samples are aggregated by default.
pub fn default_evaluation_period() -> (r: String)
    ensures
        r@ == "60s"@,
{
    "60s".to_owned()
}

/// The API version of a target by default.
pub fn default_api_version() -> (r: String)
    ensures
        r@ == "apps/v1"@,
{
    "apps/v1".to_owned()
}

} // verus!
