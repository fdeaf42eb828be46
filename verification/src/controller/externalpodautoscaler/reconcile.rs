//! Reconciling a resource: its autoscaler is kept in line with it, the scraper is told
//! of it, and its status says how that went.

use crate::apis::externalpodautoscaler::{
    Condition, ExternalPodAutoscaler, ManagedHpaStatus, MetricSpec, MetricTargetType,
    ScalingBehavior, ScalingPolicy, ScalingRules,
};
use crate::controller::externalpodautoscaler::observer::ObservedState;
use crate::k8s::{
    CrossVersionObjectReference, ExternalMetricSource, HorizontalPodAutoscaler,
    HorizontalPodAutoscalerSpec, HpaBehavior, HpaMetricSpec, HpaMetricTarget, HpaScalingPolicy,
    HpaScalingRules, ObjectMeta, OwnerReference,
};
use crate::scraper::service::EpaUpdate;
use crate::store::ops::MetricsStore;
use crate::text::{copy_opt, opt_view, same};
use crate::webhook::metrics::handlers::{build_external_metric_name, external_name};
use std::sync::Arc;
use vstd::prelude::*;
use vstd::string::StringExecFns;

verus! {

/// The name under which the controller manages fields.
pub fn field_manager() -> (r: &'static str)
    ensures
        r@ == "external-pod-autoscaler"@,
{
    "external-pod-autoscaler"
}

/// After how many seconds a resource is reconciled again that could not be.
pub const REQUEUE_SECONDS: u64 = 60;

// ---------------------------------------------------------------------------
// Errors
// ---------------------------------------------------------------------------

/// Why a resource could not be reconciled.
#[derive(Debug)]
pub enum Error {
    /// The API server refused or could not be reached.
    Kube(String),
    /// The resource could not be observed.
    Observation(String),
    /// The autoscaler could not be managed.
    Hpa(String),
}

impl Error {
    /// How the error is reported.
    pub open spec fn text(self) -> Seq<char> {
        match self {
            Error::Kube(m) => "Kubernetes API error: "@ + m@,
            Error::Observation(m) => "Observation error: "@ + m@,
            Error::Hpa(m) => "HPA management error: "@ + m@,
        }
    }

    /// How the error is reported.
    pub fn message(&self) -> (r: String)
        ensures
            r@ == self.text(),
    {
        let (head, m) = match self {
            Error::Kube(m) => ("Kubernetes API error: ", m),
            Error::Observation(m) => ("Observation error: ", m),
            Error::Hpa(m) => ("HPA management error: ", m),
        };
        let mut r = head.to_owned();
        r.append(m.as_str());
        r
    }
}

/// What is done about an error.
#[derive(Debug)]
pub struct ErrorReport {
    /// Name of the resource
    pub name: String,
    /// Namespace of the resource
    pub namespace: String,
    /// The name under which the error is counted
    pub error_type: &'static str,
    /// After how many seconds the resource is reconciled again
    pub requeue_seconds: u64,
}

/// A name, or `unknown` where there is none.
pub open spec fn or_unknown(name: Option<String>) -> Seq<char> {
    match name {
        Some(name) => name@,
        None => "unknown"@,
    }
}

fn name_or_unknown(name: &Option<String>) -> (r: String)
    ensures
        r@ == or_unknown(*name),
{
    match name {
        Some(name) => name.clone(),
        None => "unknown".to_owned(),
    }
}

/// Error policy: the error is counted, and the resource is reconciled again after a
/// while, so that what was wrong can pass.
pub fn error_policy(epa: &ExternalPodAutoscaler, error: &Error) -> (r: ErrorReport)
    ensures
        r.name@ == or_unknown(epa.metadata.name),
        r.namespace@ == or_unknown(epa.metadata.namespace),
        r.error_type@ == (match *error {
            Error::Kube(_) => "kube"@,
            Error::Observation(_) => "observation"@,
            Error::Hpa(_) => "hpa"@,
        }),
        r.requeue_seconds == REQUEUE_SECONDS,
{
    let error_type = match error {
        Error::Kube(_) => "kube",
        Error::Observation(_) => "observation",
        Error::Hpa(_) => "hpa",
    };
    ErrorReport {
        name: name_or_unknown(&epa.metadata.name),
        namespace: name_or_unknown(&epa.metadata.namespace),
        error_type,
        requeue_seconds: REQUEUE_SECONDS,
    }
}

/// The name and the namespace of a resource, or the report of which is missing.
pub open spec fn name_and_namespace(metadata: ObjectMeta) -> Result<
    (Seq<char>, Seq<char>),
    Seq<char>,
> {
    match metadata.name {
        None => Err("EPA missing metadata.name"@),
        Some(name) => match metadata.namespace {
            None => Err("EPA missing metadata.namespace"@),
            Some(namespace) => Ok((name@, namespace@)),
        },
    }
}

/// Extract the name and namespace from an EPA's metadata, returning an error if either is missing.
pub fn epa_name_namespace(epa: &ExternalPodAutoscaler) -> (r: Result<(String, String), Error>)
    ensures
        match name_and_namespace(epa.metadata) {
            Ok((name, namespace)) => r matches Ok(found) && found.0@ == name && found.1@
                == namespace,
            Err(reason) => r matches Err(Error::Observation(m)) && m@ == reason,
        },
{
    match &epa.metadata.name {
        None => Err(Error::Observation("EPA missing metadata.name".to_owned())),
        Some(name) => match &epa.metadata.namespace {
            None => Err(Error::Observation("EPA missing metadata.namespace".to_owned())),
            Some(namespace) => Ok((name.clone(), namespace.clone())),
        },
    }
}

// ---------------------------------------------------------------------------
// The managed autoscaler
// ---------------------------------------------------------------------------

/// Whether a metric of the autoscaler stands for one of the resource: it is asked for
/// under the external name, and has the target as a value or as an average value.
pub open spec fn stands_for(
    built: HpaMetricSpec,
    metric: MetricSpec,
    name: Seq<char>,
    namespace: Seq<char>,
) -> bool {
    &&& built.type_@ == "External"@
    &&& built.external.metric_name@ == external_name(name, namespace, metric.metric_name@)
    &&& match metric.type_ {
        MetricTargetType::AverageValue => {
            &&& built.external.target.type_@ == "AverageValue"@
            &&& opt_view(built.external.target.average_value) == Some(metric.target_value@)
            &&& built.external.target.value is None
        },
        MetricTargetType::Value => {
            &&& built.external.target.type_@ == "Value"@
            &&& opt_view(built.external.target.value) == Some(metric.target_value@)
            &&& built.external.target.average_value is None
        },
    }
}

/// Whether a policy of the autoscaler is one of the resource.
pub open spec fn same_policy(a: HpaScalingPolicy, b: ScalingPolicy) -> bool {
    a.type_@ == b.type_@ && a.value == b.value && a.period_seconds == b.period_seconds
}

/// Whether rules of the autoscaler are those of the resource.
pub open spec fn same_rules(a: HpaScalingRules, b: ScalingRules) -> bool {
    &&& a.stabilization_window_seconds == b.stabilization_window_seconds
    &&& opt_view(a.select_policy) == opt_view(b.select_policy)
    &&& match (a.policies, b.policies) {
        (Some(p), Some(q)) => p@.len() == q@.len() && forall|i: int|
            0 <= i < p@.len() ==> same_policy(#[trigger] p@[i], q@[i]),
        (None, None) => true,
        _ => false,
    }
}

/// Whether optional rules of the autoscaler are those of the resource.
pub open spec fn same_opt_rules(a: Option<HpaScalingRules>, b: Option<ScalingRules>) -> bool {
    match (a, b) {
        (Some(p), Some(q)) => same_rules(p, q),
        (None, None) => true,
        _ => false,
    }
}

/// Whether the autoscaler scales as the resource says.
pub open spec fn same_behavior(a: Option<HpaBehavior>, b: Option<ScalingBehavior>) -> bool {
    match (a, b) {
        (Some(p), Some(q)) => same_opt_rules(p.scale_up, q.scale_up) && same_opt_rules(
            p.scale_down,
            q.scale_down,
        ),
        (None, None) => true,
        _ => false,
    }
}

/// Whether an owner reference is to a resource, so that what refers to it is removed
/// together with it.
pub open spec fn owned_by(owner: OwnerReference, name: Seq<char>, uid: Seq<char>) -> bool {
    &&& owner.api_version@ == "ctx.sh/v1beta1"@
    &&& owner.kind@ == "ExternalPodAutoscaler"@
    &&& owner.name@ == name
    &&& owner.uid@ == uid
    &&& owner.controller == Some(true)
    &&& owner.block_owner_deletion == Some(true)
}

/// Whether an autoscaler is the one of a resource.
pub open spec fn manages(
    hpa: HorizontalPodAutoscaler,
    epa: ExternalPodAutoscaler,
    name: Seq<char>,
    namespace: Seq<char>,
    uid: Seq<char>,
) -> bool {
    let spec = hpa.spec;
    &&& opt_view(hpa.metadata.name) == Some(name)
    &&& opt_view(hpa.metadata.namespace) == Some(namespace)
    &&& hpa.metadata.generate_name is None
    &&& hpa.metadata.uid is None
    &&& hpa.metadata.resource_version is None
    &&& hpa.metadata.labels is None
    &&& hpa.metadata.deletion_timestamp is None
    &&& hpa.metadata.owner_references matches Some(owners) && owners@.len() == 1 && owned_by(
        owners@[0],
        name,
        uid,
    )
    &&& opt_view(spec.scale_target_ref.api_version) == Some(epa.spec.scale_target_ref.api_version@)
    &&& spec.scale_target_ref.kind@ == epa.spec.scale_target_ref.kind@
    &&& spec.scale_target_ref.name@ == epa.spec.scale_target_ref.name@
    &&& spec.min_replicas == Some(epa.spec.min_replicas)
    &&& spec.max_replicas == epa.spec.max_replicas
    &&& spec.metrics@.len() == epa.spec.metrics@.len()
    &&& forall|i: int|
        0 <= i < spec.metrics@.len() ==> stands_for(
            #[trigger] spec.metrics@[i],
            epa.spec.metrics@[i],
            name,
            namespace,
        )
    &&& same_behavior(spec.behavior, epa.spec.behavior)
}

fn build_metric(metric: &MetricSpec, name: &str, namespace: &str) -> (r: HpaMetricSpec)
    ensures
        stands_for(r, *metric, name@, namespace@),
{
    let target = match metric.type_ {
        MetricTargetType::AverageValue => HpaMetricTarget {
            type_: "AverageValue".to_owned(),
            value: None,
            average_value: Some(metric.target_value.clone()),
        },
        MetricTargetType::Value => HpaMetricTarget {
            type_: "Value".to_owned(),
            value: Some(metric.target_value.clone()),
            average_value: None,
        },
    };
    HpaMetricSpec {
        type_: "External".to_owned(),
        external: ExternalMetricSource {
            metric_name: build_external_metric_name(
                name,
                namespace,
                metric.metric_name.as_str(),
            ),
            target,
        },
    }
}

fn build_metrics(metrics: &Vec<MetricSpec>, name: &str, namespace: &str) -> (r: Vec<HpaMetricSpec>)
    ensures
        r@.len() == metrics@.len(),
        forall|i: int|
            0 <= i < r@.len() ==> stands_for(#[trigger] r@[i], metrics@[i], name@, namespace@),
{
    let mut r: Vec<HpaMetricSpec> = Vec::new();
    let mut i: usize = 0;
    while i < metrics.len()
        invariant
            i <= metrics@.len(),
            r@.len() == i,
            forall|k: int|
                0 <= k < i ==> stands_for(#[trigger] r@[k], metrics@[k], name@, namespace@),
        decreases metrics.len() - i,
    {
        r.push(build_metric(&metrics[i], name, namespace));
        i += 1;
    }
    r
}

fn build_policies(policies: &Vec<ScalingPolicy>) -> (r: Vec<HpaScalingPolicy>)
    ensures
        r@.len() == policies@.len(),
        forall|i: int| 0 <= i < r@.len() ==> same_policy(#[trigger] r@[i], policies@[i]),
{
    let mut r: Vec<HpaScalingPolicy> = Vec::new();
    let mut i: usize = 0;
    while i < policies.len()
        invariant
            i <= policies@.len(),
            r@.len() == i,
            forall|k: int| 0 <= k < i ==> same_policy(#[trigger] r@[k], policies@[k]),
        decreases policies.len() - i,
    {
        let policy = &policies[i];
        r.push(
            HpaScalingPolicy {
                type_: policy.type_.clone(),
                value: policy.value,
                period_seconds: policy.period_seconds,
            },
        );
        i += 1;
    }
    r
}

fn build_rules(rules: &Option<ScalingRules>) -> (r: Option<HpaScalingRules>)
    ensures
        same_opt_rules(r, *rules),
{
    match rules {
        Some(rules) => {
            let policies = match &rules.policies {
                Some(policies) => Some(build_policies(policies)),
                None => None,
            };
            Some(
                HpaScalingRules {
                    stabilization_window_seconds: rules.stabilization_window_seconds,
                    policies,
                    select_policy: copy_opt(&rules.select_policy),
                },
            )
        },
        None => None,
    }
}

fn build_behavior(behavior: &Option<ScalingBehavior>) -> (r: Option<HpaBehavior>)
    ensures
        same_behavior(r, *behavior),
{
    match behavior {
        Some(behavior) => Some(
            HpaBehavior {
                scale_up: build_rules(&behavior.scale_up),
                scale_down: build_rules(&behavior.scale_down),
            },
        ),
        None => None,
    }
}

/// How it is reported that a resource has no UID.
pub open spec fn uid_missing(name: Seq<char>, namespace: Seq<char>) -> Seq<char> {
    "ExternalPodAutoscaler "@ + namespace + "/"@ + name
        + " missing required UID for owner reference"@
}

/// Build HPA spec from EPA
pub fn build_hpa_spec(epa: &ExternalPodAutoscaler) -> (r: Result<HorizontalPodAutoscaler, Error>)
    ensures
        match name_and_namespace(epa.metadata) {
            Err(reason) => r matches Err(Error::Observation(m)) && m@ == reason,
            Ok((name, namespace)) => match epa.metadata.uid {
                None => r matches Err(Error::Hpa(m)) && m@ == uid_missing(name, namespace),
                Some(uid) => r matches Ok(hpa) && manages(hpa, *epa, name, namespace, uid@),
            },
        },
{
    let (name, namespace) = match epa_name_namespace(epa) {
        Ok(found) => found,
        Err(e) => {
            return Err(e);
        },
    };
    let uid = match &epa.metadata.uid {
        Some(uid) => uid.clone(),
        None => {
            let mut m = "ExternalPodAutoscaler ".to_owned();
            m.append(namespace.as_str());
            m.append("/");
            m.append(name.as_str());
            m.append(" missing required UID for owner reference");
            return Err(Error::Hpa(m));
        },
    };
    let metrics = build_metrics(&epa.spec.metrics, name.as_str(), namespace.as_str());
    let mut owners: Vec<OwnerReference> = Vec::new();
    owners.push(
        OwnerReference {
            api_version: "ctx.sh/v1beta1".to_owned(),
            kind: "ExternalPodAutoscaler".to_owned(),
            name: name.clone(),
            uid,
            controller: Some(true),
            block_owner_deletion: Some(true),
        },
    );
    let mut metadata = ObjectMeta::empty();
    metadata.name = Some(name);
    metadata.namespace = Some(namespace);
    metadata.owner_references = Some(owners);
    let target = &epa.spec.scale_target_ref;
    Ok(
        HorizontalPodAutoscaler {
            metadata,
            spec: HorizontalPodAutoscalerSpec {
                scale_target_ref: CrossVersionObjectReference {
                    api_version: Some(target.api_version.clone()),
                    kind: target.kind.clone(),
                    name: target.name.clone(),
                },
                min_replicas: Some(epa.spec.min_replicas),
                max_replicas: epa.spec.max_replicas,
                metrics,
                behavior: build_behavior(&epa.spec.behavior),
            },
        },
    )
}

// ---------------------------------------------------------------------------
// Reconciling
// ---------------------------------------------------------------------------

/// What is to be done about a resource.
#[derive(Debug)]
pub enum ReconcileStep {
    /// Nothing: it does not exist, or it is being deleted and another replica sees to
    /// that.
    Done,
    /// The scraper is told that it is being deleted, and what was stored of it is
    /// removed.
    Delete(EpaUpdate),
    /// Its autoscaler is applied; then the scraper is told of it, where that succeeded.
    Apply(HorizontalPodAutoscaler),
    /// Its autoscaler cannot be built. The scraper is not told of it.
    Fail(Error),
    /// Only the scraper is told of it: another replica manages its autoscaler.
    Notify(EpaUpdate),
}

/// Whether `step` is what is to be done about a resource. Only the owner manages the
/// autoscaler and sees to a deletion; every replica tells its scraper of a resource.
pub open spec fn step_for(
    step: ReconcileStep,
    observed: ObservedState,
    is_owner: bool,
    name: Seq<char>,
    namespace: Seq<char>,
) -> bool {
    match observed.epa {
        None => step is Done,
        Some(epa) => if epa.metadata.deletion_timestamp is Some {
            if is_owner {
                step matches ReconcileStep::Delete(
                    EpaUpdate::Delete { namespace: ns, name: n },
                ) && ns@ == namespace && n@ == name
            } else {
                step is Done
            }
        } else if is_owner {
            match name_and_namespace(epa.metadata) {
                Err(reason) => step matches ReconcileStep::Fail(Error::Observation(m)) && m@
                    == reason,
                Ok((n, ns)) => match epa.metadata.uid {
                    None => step matches ReconcileStep::Fail(Error::Hpa(m)) && m@ == uid_missing(
                        n,
                        ns,
                    ),
                    Some(uid) => step matches ReconcileStep::Apply(hpa) && manages(
                        hpa,
                        *epa,
                        n,
                        ns,
                        uid@,
                    ),
                },
            }
        } else {
            step matches ReconcileStep::Notify(EpaUpdate::Upsert(told)) && told == epa
        },
    }
}

/// What is to be done about the resource of a name, once it was observed and it is
/// known whether this replica is its owner.
pub fn reconcile(observed: &ObservedState, is_owner: bool, name: &str, namespace: &str) -> (r:
    ReconcileStep)
    ensures
        step_for(r, *observed, is_owner, name@, namespace@),
{
    let epa = match observed.epa() {
        Some(epa) => epa,
        None => {
            return ReconcileStep::Done;
        },
    };
    if observed.is_deleting() {
        if !is_owner {
            return ReconcileStep::Done;
        }
        return ReconcileStep::Delete(
            EpaUpdate::Delete { namespace: namespace.to_owned(), name: name.to_owned() },
        );
    }
    if !is_owner {
        return ReconcileStep::Notify(EpaUpdate::Upsert(Arc::clone(epa)));
    }
    match build_hpa_spec(epa) {
        Ok(hpa) => ReconcileStep::Apply(hpa),
        Err(e) => ReconcileStep::Fail(e),
    }
}

/// Forgets a resource that is being deleted: removes what was stored of it, and gives
/// what the scraper is told.
pub fn forget(store: &mut MetricsStore, namespace: &str, name: &str) -> (r: EpaUpdate)
    ensures
        final(store)@ == old(store)@.resource_removed(namespace@, name@),
        r matches EpaUpdate::Delete { namespace: ns, name: n } && ns@ == namespace@ && n@
            == name@,
{
    store.remove_epa_windows(namespace, name);
    EpaUpdate::Delete { namespace: namespace.to_owned(), name: name.to_owned() }
}

/// Reconcile the managed HPA: what applying it came to.
pub fn reconcile_hpa(applied: Result<(), String>) -> (r: Result<(), Error>)
    ensures
        match applied {
            Ok(()) => r is Ok,
            Err(reason) => r matches Err(Error::Hpa(m)) && m@ == "Failed to apply HPA: "@ + reason@,
        },
{
    match applied {
        Ok(()) => Ok(()),
        Err(reason) => {
            let mut m = "Failed to apply HPA: ".to_owned();
            m.append(reason.as_str());
            Err(Error::Hpa(m))
        },
    }
}

/// What the scraper is told once the autoscaler of a resource was applied: of the
/// resource as it was observed. Where that failed it is told nothing.
pub fn after_apply(observed: &ObservedState, applied: &Result<(), Error>) -> (r: Option<EpaUpdate>)
    ensures
        match (*applied, observed.epa) {
            (Ok(_), Some(epa)) => r matches Some(EpaUpdate::Upsert(told)) && told == epa,
            _ => r is None,
        },
{
    match (applied, observed.epa()) {
        (Ok(()), Some(epa)) => Some(EpaUpdate::Upsert(Arc::clone(epa))),
        _ => None,
    }
}

// ---------------------------------------------------------------------------
// Status
// ---------------------------------------------------------------------------

/// What is written into the status of a resource.
#[derive(Debug)]
pub struct StatusPatch {
    pub managed_hpa: ManagedHpaStatus,
    pub condition: Condition,
}

/// The status of a condition.
pub open spec fn status_text(ready: bool) -> Seq<char> {
    if ready {
        "True"@
    } else {
        "False"@
    }
}

/// The place of the first condition that says whether a resource is ready; the number
/// of conditions where there is none.
pub open spec fn ready_at(conditions: Seq<Condition>) -> int
    decreases conditions.len(),
{
    if conditions.len() == 0 || conditions[0].type_@ == "Ready"@ {
        0
    } else {
        1 + ready_at(conditions.drop_first())
    }
}

/// When a resource became ready, or ceased to be: as its status says where that has
/// not changed, else now.
pub open spec fn transition_time(
    existing: Option<ExternalPodAutoscaler>,
    ready: bool,
    now: Seq<char>,
) -> Seq<char> {
    match existing {
        Some(epa) => match epa.status {
            Some(status) => {
                let at = ready_at(status.conditions@);
                if at < status.conditions@.len() && status.conditions@[at].status@ == status_text(
                    ready,
                ) {
                    status.conditions@[at].last_transition_time@
                } else {
                    now
                }
            },
            None => now,
        },
        None => now,
    }
}

proof fn lemma_ready_at(conditions: Seq<Condition>, i: int)
    requires
        0 <= i <= conditions.len(),
        forall|k: int| 0 <= k < i ==> (#[trigger] conditions[k]).type_@ != "Ready"@,
        i < conditions.len() ==> conditions[i].type_@ == "Ready"@,
    ensures
        ready_at(conditions) == i,
    decreases conditions.len(),
{
    if i > 0 {
        let rest = conditions.drop_first();
        assert(conditions[0].type_@ != "Ready"@);
        assert forall|k: int| 0 <= k < i - 1 implies (#[trigger] rest[k]).type_@ != "Ready"@ by {
            assert(rest[k] == conditions[k + 1]);
        }
        lemma_ready_at(rest, i - 1);
    }
}

fn find_ready(conditions: &Vec<Condition>) -> (at: usize)
    ensures
        at == ready_at(conditions@),
        at <= conditions@.len(),
{
    let mut i: usize = 0;
    while i < conditions.len()
        invariant
            i <= conditions@.len(),
            forall|k: int| 0 <= k < i ==> (#[trigger] conditions@[k]).type_@ != "Ready"@,
        decreases conditions.len() - i,
    {
        if same(conditions[i].type_.as_str(), "Ready") {
            proof {
                lemma_ready_at(conditions@, i as int);
            }
            return i;
        }
        i += 1;
    }
    proof {
        lemma_ready_at(conditions@, i as int);
    }
    i
}

fn time_of_transition(existing: &Option<ExternalPodAutoscaler>, ready: bool, now: &str) -> (r:
    String)
    ensures
        r@ == transition_time(*existing, ready, now@),
{
    let wanted = if ready {
        "True"
    } else {
        "False"
    };
    if let Some(epa) = existing {
        if let Some(status) = &epa.status {
            let at: usize = find_ready(&status.conditions);
            if at < status.conditions.len() {
                let condition = &status.conditions[at];
                if same(condition.status.as_str(), wanted) {
                    return condition.last_transition_time.clone();
                }
            }
        }
    }
    now.to_owned()
}

/// What is written into the status of a resource, given how its autoscaler was
/// reconciled, the resource as it is where it could be read, and the time. The time of
/// the last transition changes only where the resource becomes ready or ceases to be.
pub fn patch_epa_status(
    name: &str,
    result: &Result<(), Error>,
    existing: &Option<ExternalPodAutoscaler>,
    now: &str,
) -> (r: StatusPatch)
    ensures
        r.managed_hpa.name@ == name@,
        opt_view(r.managed_hpa.last_sync_time) == Some(now@),
        r.condition.type_@ == "Ready"@,
        r.condition.status@ == status_text(*result is Ok),
        r.condition.last_transition_time@ == transition_time(*existing, *result is Ok, now@),
        match *result {
            Ok(()) => r.condition.reason@ == "HpaSynced"@ && r.condition.message@
                == "HPA successfully reconciled"@,
            Err(e) => r.condition.reason@ == "HpaError"@ && r.condition.message@ == e.text(),
        },
{
    let ready = result.is_ok();
    let (reason, message) = match result {
        Ok(()) => ("HpaSynced", "HPA successfully reconciled".to_owned()),
        Err(e) => ("HpaError", e.message()),
    };
    let status = if ready {
        "True"
    } else {
        "False"
    };
    StatusPatch {
        managed_hpa: ManagedHpaStatus {
            name: name.to_owned(),
            last_sync_time: Some(now.to_owned()),
        },
        condition: Condition {
            type_: "Ready".to_owned(),
            status: status.to_owned(),
            last_transition_time: time_of_transition(existing, ready, now),
            reason: reason.to_owned(),
            message,
        },
    }
}

} // verus!
