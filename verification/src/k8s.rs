//! The parts of Kubernetes objects that the autoscaler reads and writes.

use crate::labels::Labels;
use vstd::prelude::*;

verus! {

/// Metadata of an object
#[derive(Debug, Clone)]
pub struct ObjectMeta {
    pub name: Option<String>,
    /// The prefix from which the server makes a name
    pub generate_name: Option<String>,
    pub namespace: Option<String>,
    pub uid: Option<String>,
    pub resource_version: Option<String>,
    pub labels: Option<Labels>,
    pub owner_references: Option<Vec<OwnerReference>>,
    /// When the object was marked for deletion, in microseconds since the Unix epoch
    pub deletion_timestamp: Option<i64>,
}

impl ObjectMeta {
    /// Metadata with nothing set.
    pub fn empty() -> (r: ObjectMeta)
        ensures
            r.name is None,
            r.generate_name is None,
            r.namespace is None,
            r.uid is None,
            r.resource_version is None,
            r.labels is None,
            r.owner_references is None,
            r.deletion_timestamp is None,
    {
        ObjectMeta {
            name: None,
            generate_name: None,
            namespace: None,
            uid: None,
            resource_version: None,
            labels: None,
            owner_references: None,
            deletion_timestamp: None,
        }
    }
}

/// Reference to the object that another one belongs to
#[derive(Debug, Clone)]
pub struct OwnerReference {
    pub api_version: String,
    pub kind: String,
    pub name: String,
    pub uid: String,
    pub controller: Option<bool>,
    pub block_owner_deletion: Option<bool>,
}

/// A pod
#[derive(Debug, Clone)]
pub struct Pod {
    pub metadata: ObjectMeta,
    pub status: Option<PodStatus>,
}

/// Status of a pod
#[derive(Debug, Clone)]
pub struct PodStatus {
    pub phase: Option<String>,
    pub pod_ip: Option<String>,
    pub conditions: Option<Vec<PodCondition>>,
}

/// Condition of a pod
#[derive(Debug, Clone)]
pub struct PodCondition {
    pub type_: String,
    pub status: String,
}

/// Label selector of a workload
#[derive(Debug, Clone)]
pub struct LabelSelector {
    pub match_labels: Option<Labels>,
    pub match_expressions: Option<Vec<LabelSelectorRequirement>>,
}

/// Requirement of a workload's label selector
#[derive(Debug, Clone)]
pub struct LabelSelectorRequirement {
    pub key: String,
    pub operator: String,
    pub values: Option<Vec<String>>,
}

/// A lease, by which a replica shows that it is alive
#[derive(Debug, Clone)]
pub struct Lease {
    pub metadata: ObjectMeta,
    pub spec: Option<LeaseSpec>,
}

/// Content of a lease
#[derive(Debug, Clone)]
pub struct LeaseSpec {
    pub holder_identity: Option<String>,
    pub lease_duration_seconds: Option<i32>,
    /// Microseconds since the Unix epoch
    pub renew_time: Option<i64>,
    /// Microseconds since the Unix epoch
    pub acquire_time: Option<i64>,
}

/// A horizontal pod autoscaler
#[derive(Debug, Clone)]
pub struct HorizontalPodAutoscaler {
    pub metadata: ObjectMeta,
    pub spec: HorizontalPodAutoscalerSpec,
}

/// What a horizontal pod autoscaler does
#[derive(Debug, Clone)]
pub struct HorizontalPodAutoscalerSpec {
    pub scale_target_ref: CrossVersionObjectReference,
    pub min_replicas: Option<i32>,
    pub max_replicas: i32,
    pub metrics: Vec<HpaMetricSpec>,
    pub behavior: Option<HpaBehavior>,
}

/// Reference to the workload that is scaled
#[derive(Debug, Clone)]
pub struct CrossVersionObjectReference {
    pub api_version: Option<String>,
    pub kind: String,
    pub name: String,
}

/// A metric by which a workload is scaled
#[derive(Debug, Clone)]
pub struct HpaMetricSpec {
    pub type_: String,
    pub external: ExternalMetricSource,
}

/// An external metric and its target
#[derive(Debug, Clone)]
pub struct ExternalMetricSource {
    /// Name of the external metric
    pub metric_name: String,
    pub target: HpaMetricTarget,
}

/// The target of a metric
#[derive(Debug, Clone)]
pub struct HpaMetricTarget {
    pub type_: String,
    pub value: Option<String>,
    pub average_value: Option<String>,
}

/// How a workload is scaled
#[derive(Debug, Clone)]
pub struct HpaBehavior {
    pub scale_up: Option<HpaScalingRules>,
    pub scale_down: Option<HpaScalingRules>,
}

/// How a workload is scaled in one direction
#[derive(Debug, Clone)]
pub struct HpaScalingRules {
    pub stabilization_window_seconds: Option<i32>,
    pub policies: Option<Vec<HpaScalingPolicy>>,
    pub select_policy: Option<String>,
}

/// How much a workload is scaled at once
#[derive(Debug, Clone)]
pub struct HpaScalingPolicy {
    pub type_: String,
    pub value: i32,
    pub period_seconds: i32,
}

/// Registration of an API that another server answers for
#[derive(Debug, Clone)]
pub struct ApiService {
    pub metadata: ObjectMeta,
    pub group: String,
    pub version: String,
    pub service_name: String,
    pub service_namespace: String,
    pub service_port: i32,
    pub insecure_skip_tls_verify: bool,
    pub group_priority_minimum: i32,
    pub version_priority: i32,
}

/// What became of a request to the API server
#[derive(Debug, Clone, Copy, PartialEq, Eq, Structural)]
pub enum CallOutcome {
    /// The server did what was asked.
    Done,
    /// The server refused, with this status code.
    Refused(u16),
    /// No answer came.
    Failed,
}

} // verus!
