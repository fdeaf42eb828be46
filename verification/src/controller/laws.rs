//! What holds of the controllers as a whole.

use crate::apis::externalpodautoscaler::{
    Condition, ExternalPodAutoscaler, MetricTargetType, ScalingRules,
};
use crate::apis::metric as metric_api;
use crate::controller::externalpodautoscaler::observer::{Lookup, ObservedState, StateObserver};
use crate::controller::externalpodautoscaler::reconcile::{
    after_apply, build_hpa_spec, epa_name_namespace, error_policy, forget, manages,
    patch_epa_status, ready_at, reconcile, reconcile_hpa, same_opt_rules, same_policy, stands_for,
    status_text, step_for, transition_time, Error, ErrorReport, ReconcileStep, StatusPatch,
};
use crate::controller::membership::{active_in, unexpired, MembershipManager};
use crate::controller::metric;
use crate::controller::run::{
    api_service_name, install_step, may_go_on, register_api_service, InstallStep,
};
use crate::controller::work_assigner::{is_assigned, weight_of, WorkAssigner};
use crate::k8s::{ApiService, HorizontalPodAutoscaler, HpaScalingRules, Lease, ObjectMeta};
use crate::membership::manager::{lease_name_of, lease_replica, LEASE_SECONDS, MICROS};
use crate::scraper::service::EpaUpdate;
use crate::store::ops::MetricsStore;
use crate::webhook::metrics::handlers::named_metric;
use crate::webhook::metrics::laws::law_metric_name_round_trip;
use vstd::prelude::*;

verus! {

// ---------------------------------------------------------------------------
// The managed autoscaler
// ---------------------------------------------------------------------------

/// The metrics API understands what the autoscaler asks for: the name of each metric of
/// a managed autoscaler is read as that metric of that resource, in its namespace.
pub proof fn law_managed_metrics_are_understood(
    hpa: HorizontalPodAutoscaler,
    epa: ExternalPodAutoscaler,
    name: Seq<char>,
    namespace: Seq<char>,
    uid: Seq<char>,
    i: int,
)
    requires
        manages(hpa, epa, name, namespace, uid),
        name.len() > 0,
        0 <= i < epa.spec.metrics@.len(),
        epa.spec.metrics@[i].metric_name@.len() > 0,
        !epa.spec.metrics@[i].metric_name@.contains('-'),
    ensures
        named_metric(namespace, hpa.spec.metrics@[i].external.metric_name@) == Some(
            (name, epa.spec.metrics@[i].metric_name@),
        ),
{
    assert(stands_for(hpa.spec.metrics@[i], epa.spec.metrics@[i], name, namespace));
    law_metric_name_round_trip(name, namespace, epa.spec.metrics@[i].metric_name@);
}

/// A replica that does not own a resource neither applies its autoscaler nor tells of
/// its deletion.
pub proof fn law_only_the_owner_acts(
    step: ReconcileStep,
    observed: ObservedState,
    name: Seq<char>,
    namespace: Seq<char>,
)
    requires
        step_for(step, observed, false, name, namespace),
    ensures
        !(step is Apply),
        !(step is Delete),
        !(step is Fail),
        step is Notify <==> observed.epa is Some && !observed.deleting(),
{
}

/// What the scraper is told of in a reconciliation, given the step that was taken and
/// what came of applying the autoscaler, where that was the step.
pub open spec fn told(
    step: ReconcileStep,
    observed: ObservedState,
    applied: bool,
) -> Option<EpaUpdate> {
    match step {
        ReconcileStep::Delete(update) => Some(update),
        ReconcileStep::Notify(update) => Some(update),
        ReconcileStep::Apply(_) => match observed.epa {
            Some(epa) if applied => Some(EpaUpdate::Upsert(epa)),
            _ => None,
        },
        _ => None,
    }
}

/// Every replica tells its scraper of a resource that is there, the owner only once the
/// autoscaler was applied. Of a deletion the owner alone tells.
pub proof fn law_scraper_is_told(
    step: ReconcileStep,
    observed: ObservedState,
    is_owner: bool,
    name: Seq<char>,
    namespace: Seq<char>,
    applied: bool,
)
    requires
        step_for(step, observed, is_owner, name, namespace),
    ensures
        observed.epa is None ==> told(step, observed, applied) is None,
        observed.epa is Some && !observed.deleting() && !is_owner ==> told(
            step,
            observed,
            applied,
        ) == Some(EpaUpdate::Upsert(observed.epa->0)),
        observed.epa is Some && !observed.deleting() && is_owner ==> told(step, observed, applied)
            == (if applied && step is Apply {
            Some(EpaUpdate::Upsert(observed.epa->0))
        } else {
            None
        }),
        observed.deleting() && !is_owner ==> told(step, observed, applied) is None,
        observed.deleting() && is_owner ==> (told(step, observed, applied) matches Some(
            EpaUpdate::Delete { namespace: ns, name: n },
        ) && ns@ == namespace && n@ == name),
{
}

// ---------------------------------------------------------------------------
// Status
// ---------------------------------------------------------------------------

/// The time of the last transition stays as long as a resource stays ready, or stays
/// not ready, and is set anew when that changes.
pub proof fn law_transition_time(
    before: ExternalPodAutoscaler,
    condition: Condition,
    was_ready: bool,
    ready: bool,
    now: Seq<char>,
)
    requires
        before.status matches Some(status) && status.conditions@ == seq![condition],
        condition.type_@ == "Ready"@,
        condition.status@ == status_text(was_ready),
    ensures
        transition_time(Some(before), ready, now) == (if ready == was_ready {
            condition.last_transition_time@
        } else {
            now
        }),
{
    reveal_strlit("True");
    reveal_strlit("False");
    assert(status_text(true) != status_text(false)) by {
        assert("True"@.len() == 4);
        assert("False"@.len() == 5);
    }
}

// ---------------------------------------------------------------------------
// Membership and assignment
// ---------------------------------------------------------------------------

/// A replica that registers itself is seen as active until its lease expires.
pub proof fn law_registration_lasts(
    manager: MembershipManager,
    lease: Lease,
    registered: i64,
    now: i64,
)
    requires
        manager.registers(lease, registered),
    ensures
        active_in(seq![lease], now, manager.id()) == (now < registered + MICROS * LEASE_SECONDS),
{
    reveal_strlit("epa-replica-");
    let name = lease_name_of(manager.id());
    let head = "epa-replica-"@;
    assert(name.take(head.len() as int) =~= head);
    assert(name.skip(head.len() as int) =~= manager.id());
    assert(lease_replica(lease) == Some(manager.id()));
    assert(seq![lease][0] == lease);
    assert(unexpired(lease, now) == (now < registered + MICROS * LEASE_SECONDS));
}

/// Where no two replicas weigh the same, all replicas that see the same active ones
/// assign a resource to the same one.
pub proof fn law_assignment_is_agreed(
    replicas: Set<Seq<char>>,
    key: Seq<char>,
    a: Option<Seq<char>>,
    b: Option<Seq<char>>,
)
    requires
        is_assigned(replicas, key, a),
        is_assigned(replicas, key, b),
        forall|x: Seq<char>, y: Seq<char>|
            replicas.contains(x) && replicas.contains(y) && x != y ==> #[trigger] weight_of(x, key)
                != #[trigger] weight_of(y, key),
    ensures
        a == b,
{
    match (a, b) {
        (Some(x), Some(y)) => {
            assert(weight_of(x, key) <= weight_of(y, key));
            assert(weight_of(y, key) <= weight_of(x, key));
        },
        _ => {},
    }
}

/// A replica that leaves takes nothing from the others: a resource that another one has
/// stays with it.
pub proof fn law_assignment_is_stable(
    replicas: Set<Seq<char>>,
    key: Seq<char>,
    owner: Seq<char>,
    leaver: Seq<char>,
)
    requires
        is_assigned(replicas, key, Some(owner)),
        leaver != owner,
    ensures
        is_assigned(replicas.remove(leaver), key, Some(owner)),
{
}

// ---------------------------------------------------------------------------
// The autoscaler that is built
// ---------------------------------------------------------------------------

/// The autoscaler of a resource scales the resource's workload, between its least and its
/// greatest number of replicas, and has the resource's name and namespace. The resource is
/// its only owner.
pub proof fn law_autoscaler_of_a_resource(
    epa: &ExternalPodAutoscaler,
    r: Result<HorizontalPodAutoscaler, Error>,
)
    requires
        call_ensures(build_hpa_spec, (epa,), r),
        epa.metadata.name is Some,
        epa.metadata.namespace is Some,
        epa.metadata.uid is Some,
    ensures
        r is Ok,
        ({
            let hpa = r->Ok_0;
            &&& hpa.spec.min_replicas == Some(epa.spec.min_replicas)
            &&& hpa.spec.max_replicas == epa.spec.max_replicas
            &&& hpa.spec.scale_target_ref.api_version is Some
            &&& hpa.spec.scale_target_ref.api_version->0@ == epa.spec.scale_target_ref.api_version@
            &&& hpa.spec.scale_target_ref.kind@ == epa.spec.scale_target_ref.kind@
            &&& hpa.spec.scale_target_ref.name@ == epa.spec.scale_target_ref.name@
            &&& hpa.metadata.name is Some && hpa.metadata.name->0@ == epa.metadata.name->0@
            &&& hpa.metadata.namespace is Some && hpa.metadata.namespace->0@
                == epa.metadata.namespace->0@
            &&& hpa.metadata.owner_references is Some
            &&& hpa.metadata.owner_references->0@.len() == 1
            &&& hpa.metadata.owner_references->0@[0].name@ == epa.metadata.name->0@
            &&& hpa.metadata.owner_references->0@[0].uid@ == epa.metadata.uid->0@
            &&& hpa.metadata.owner_references->0@[0].kind@ == "ExternalPodAutoscaler"@
            &&& hpa.metadata.owner_references->0@[0].api_version@ == "ctx.sh/v1beta1"@
            &&& hpa.metadata.owner_references->0@[0].controller == Some(true)
        }),
{
}

/// Resources whose numbers of replicas differ have autoscalers that differ in the same
/// numbers.
pub proof fn law_replicas_tell_autoscalers_apart(
    epa: &ExternalPodAutoscaler,
    other: &ExternalPodAutoscaler,
    a: HorizontalPodAutoscaler,
    b: HorizontalPodAutoscaler,
)
    requires
        call_ensures(build_hpa_spec, (epa,), Ok::<HorizontalPodAutoscaler, Error>(a)),
        call_ensures(build_hpa_spec, (other,), Ok::<HorizontalPodAutoscaler, Error>(b)),
    ensures
        a.spec.min_replicas == b.spec.min_replicas <==> epa.spec.min_replicas
            == other.spec.min_replicas,
        a.spec.max_replicas == b.spec.max_replicas <==> epa.spec.max_replicas
            == other.spec.max_replicas,
        a.spec.min_replicas is Some,
        epa.spec.min_replicas <= epa.spec.max_replicas <==> a.spec.min_replicas->0
            <= a.spec.max_replicas,
{
}

/// Each metric of a resource is a metric of its autoscaler, in its place: an external one,
/// asked for under the name of the resource, its namespace and the metric. Its target is
/// that of the resource, per replica or in all as the resource says, and not both.
pub proof fn law_metrics_of_an_autoscaler(
    epa: &ExternalPodAutoscaler,
    hpa: HorizontalPodAutoscaler,
    i: int,
)
    requires
        call_ensures(build_hpa_spec, (epa,), Ok::<HorizontalPodAutoscaler, Error>(hpa)),
        0 <= i < epa.spec.metrics@.len(),
    ensures
        hpa.spec.metrics@.len() == epa.spec.metrics@.len(),
        ({
            let asked = epa.spec.metrics@[i];
            let built = hpa.spec.metrics@[i];
            &&& built.type_@ == "External"@
            &&& built.external.metric_name@ == epa.metadata.name->0@ + "-"@
                + epa.metadata.namespace->0@ + "-"@ + asked.metric_name@
            &&& asked.type_ == MetricTargetType::AverageValue ==> {
                &&& built.external.target.type_@ == "AverageValue"@
                &&& built.external.target.average_value is Some
                &&& built.external.target.average_value->0@ == asked.target_value@
                &&& built.external.target.value is None
            }
            &&& asked.type_ == MetricTargetType::Value ==> {
                &&& built.external.target.type_@ == "Value"@
                &&& built.external.target.value is Some
                &&& built.external.target.value->0@ == asked.target_value@
                &&& built.external.target.average_value is None
            }
        }),
{
    assert(stands_for(
        hpa.spec.metrics@[i],
        epa.spec.metrics@[i],
        epa.metadata.name->0@,
        epa.metadata.namespace->0@,
    ));
}

/// Whether rules of an autoscaler and of a resource are there alike and hold the same:
/// window, choice of policy, and policies in their order.
pub open spec fn rules_agree(a: Option<HpaScalingRules>, b: Option<ScalingRules>) -> bool {
    &&& a is Some == b is Some
    &&& a is Some ==> {
        let x = a->0;
        let y = b->0;
        &&& x.stabilization_window_seconds == y.stabilization_window_seconds
        &&& x.select_policy is Some == y.select_policy is Some
        &&& x.select_policy is Some ==> x.select_policy->0@ == y.select_policy->0@
        &&& x.policies is Some == y.policies is Some
        &&& x.policies is Some ==> x.policies->0@.len() == y.policies->0@.len()
        &&& x.policies is Some ==> forall|k: int|
            0 <= k < x.policies->0@.len() ==> {
                &&& (#[trigger] x.policies->0@[k]).type_@ == y.policies->0@[k].type_@
                &&& x.policies->0@[k].value == y.policies->0@[k].value
                &&& x.policies->0@[k].period_seconds == y.policies->0@[k].period_seconds
            }
    }
}

proof fn lemma_rules_agree(a: Option<HpaScalingRules>, b: Option<ScalingRules>)
    requires
        same_opt_rules(a, b),
    ensures
        rules_agree(a, b),
{
    if let Some(x) = a {
        if let Some(p) = x.policies {
            assert forall|k: int| 0 <= k < p@.len() implies {
                &&& (#[trigger] p@[k]).type_@ == b->0.policies->0@[k].type_@
                &&& p@[k].value == b->0.policies->0@[k].value
                &&& p@[k].period_seconds == b->0.policies->0@[k].period_seconds
            } by {
                assert(same_policy(p@[k], b->0.policies->0@[k]));
            }
        }
    }
}

/// An autoscaler scales up as its resource says for scaling up, and down as it says for
/// scaling down.
pub proof fn law_behavior_of_an_autoscaler(
    epa: &ExternalPodAutoscaler,
    hpa: HorizontalPodAutoscaler,
)
    requires
        call_ensures(build_hpa_spec, (epa,), Ok::<HorizontalPodAutoscaler, Error>(hpa)),
    ensures
        hpa.spec.behavior is Some == epa.spec.behavior is Some,
        hpa.spec.behavior is Some ==> rules_agree(
            hpa.spec.behavior->0.scale_up,
            epa.spec.behavior->0.scale_up,
        ) && rules_agree(hpa.spec.behavior->0.scale_down, epa.spec.behavior->0.scale_down),
{
    if hpa.spec.behavior is Some {
        lemma_rules_agree(hpa.spec.behavior->0.scale_up, epa.spec.behavior->0.scale_up);
        lemma_rules_agree(hpa.spec.behavior->0.scale_down, epa.spec.behavior->0.scale_down);
    }
}

/// A resource without a name, a namespace or a UID has no autoscaler: which of the first
/// two is missing is an error of observation, the last an error of the autoscaler.
pub proof fn law_resources_without_identity(
    epa: &ExternalPodAutoscaler,
    r: Result<HorizontalPodAutoscaler, Error>,
    names: Result<(String, String), Error>,
)
    requires
        call_ensures(build_hpa_spec, (epa,), r),
        call_ensures(epa_name_namespace, (epa,), names),
    ensures
        epa.metadata.name is None || epa.metadata.namespace is None <==> names is Err,
        names is Err ==> names->Err_0 is Observation && r is Err && r->Err_0 is Observation,
        names is Ok ==> names->Ok_0.0@ == epa.metadata.name->0@ && names->Ok_0.1@
            == epa.metadata.namespace->0@,
        epa.metadata.name is None ==> (names matches Err(Error::Observation(m)) && m@
            == "EPA missing metadata.name"@),
        epa.metadata.name is Some && epa.metadata.namespace is None ==> (names matches Err(
            Error::Observation(m),
        ) && m@ == "EPA missing metadata.namespace"@),
        names matches Err(Error::Observation(m)) ==> (r matches Err(Error::Observation(n)) && n@
            == m@),
        names is Ok && epa.metadata.uid is None ==> (r matches Err(Error::Hpa(m)) && m@
            == "ExternalPodAutoscaler "@ + epa.metadata.namespace->0@ + "/"@
            + epa.metadata.name->0@ + " missing required UID for owner reference"@),
        names is Ok && epa.metadata.uid is Some ==> r is Ok,
{
}

// ---------------------------------------------------------------------------
// A reconciliation
// ---------------------------------------------------------------------------

/// A reconciliation of a resource that is not there does nothing. One that is being
/// deleted concerns its owner alone, who tells of it. Of any other the owner applies the
/// autoscaler that is built for it, or fails as building it did, and every other replica
/// tells its scraper of it as it was observed.
pub proof fn law_reconciliation(
    observed: &ObservedState,
    is_owner: bool,
    name: &str,
    namespace: &str,
    epa: &ExternalPodAutoscaler,
    built: Result<HorizontalPodAutoscaler, Error>,
    r: ReconcileStep,
)
    requires
        call_ensures(reconcile, (observed, is_owner, name, namespace), r),
        observed.epa matches Some(found) ==> *found == *epa && call_ensures(
            build_hpa_spec,
            (epa,),
            built,
        ),
    ensures
        observed.epa is None ==> r is Done,
        observed.epa is Some && epa.metadata.deletion_timestamp is Some && !is_owner ==> r is Done,
        observed.epa is Some && epa.metadata.deletion_timestamp is Some && is_owner ==> (
        r matches ReconcileStep::Delete(EpaUpdate::Delete { namespace: ns, name: n }) && ns@
            == namespace@ && n@ == name@),
        observed.epa is Some && epa.metadata.deletion_timestamp is None && !is_owner ==> (
        r matches ReconcileStep::Notify(EpaUpdate::Upsert(told)) && *told == *epa),
        observed.epa is Some && epa.metadata.deletion_timestamp is None && is_owner ==> {
            &&& r is Apply == built is Ok
            &&& r is Fail == built is Err
            &&& r matches ReconcileStep::Apply(hpa) ==> {
                &&& hpa.spec.min_replicas == Some(epa.spec.min_replicas)
                &&& hpa.spec.max_replicas == epa.spec.max_replicas
                &&& hpa.spec.metrics@.len() == epa.spec.metrics@.len()
                &&& hpa.metadata.name is Some && hpa.metadata.name->0@ == epa.metadata.name->0@
            }
        },
{
}

/// After its autoscaler was applied, the scraper is told of the resource; where that
/// failed, of nothing. An autoscaler that could not be applied is an error of the
/// autoscaler, with the reason.
pub proof fn law_after_an_autoscaler_was_applied(
    observed: &ObservedState,
    applied: Result<(), String>,
    outcome: Result<(), Error>,
    r: Option<EpaUpdate>,
)
    requires
        call_ensures(reconcile_hpa, (applied,), outcome),
        call_ensures(after_apply, (observed, &outcome), r),
    ensures
        outcome is Ok == applied is Ok,
        applied matches Err(reason) ==> (outcome matches Err(Error::Hpa(m)) && m@
            == "Failed to apply HPA: "@ + reason@),
        applied is Ok && observed.epa is Some ==> (r matches Some(EpaUpdate::Upsert(told)) && told
            == observed.epa->0),
        applied is Err || observed.epa is None ==> r is None,
{
}

/// A resource that is forgotten leaves nothing in the store: no window, no aggregation,
/// no configuration and no statistics of it. What belongs to others stays.
pub proof fn law_forgotten_resource(
    store: &mut MetricsStore,
    namespace: &str,
    name: &str,
    r: EpaUpdate,
    key: Seq<Seq<char>>,
    now: u64,
)
    requires
        call_ensures(forget, (store, namespace, name), r),
        key.len() >= 2,
    ensures
        r matches EpaUpdate::Delete { namespace: ns, name: n } && ns@ == namespace@ && n@ == name@,
        key[0] == namespace@ && key[1] == name@ ==> {
            &&& !final(store)@.windows.contains_key(key)
            &&& !final(store)@.cache.contains_key(key)
            &&& !final(store)@.configs.contains_key(key)
            &&& !final(store)@.stats.contains_key(key)
        },
        key[0] != namespace@ || key[1] != name@ ==> {
            &&& final(store)@.windows.contains_key(key) == old(store)@.windows.contains_key(key)
            &&& final(store)@.windows.contains_key(key) ==> final(store)@.windows[key]
                == old(store)@.windows[key]
            &&& final(store)@.cached(key, now) == old(store)@.cached(key, now)
            &&& final(store)@.config(key) == old(store)@.config(key)
            &&& final(store)@.stat(key) == old(store)@.stat(key)
        },
{
}

/// An error is counted under its kind and for its resource, and the resource is reconciled
/// again after a minute.
pub proof fn law_errors_of_reconciliation(
    epa: &ExternalPodAutoscaler,
    error: &Error,
    r: ErrorReport,
    message: String,
)
    requires
        call_ensures(error_policy, (epa, error), r),
        call_ensures(Error::message, (error,), message),
    ensures
        r.requeue_seconds == 60,
        epa.metadata.name matches Some(name) ==> r.name@ == name@,
        epa.metadata.namespace matches Some(namespace) ==> r.namespace@ == namespace@,
        epa.metadata.name is None ==> r.name@ == "unknown"@,
        epa.metadata.namespace is None ==> r.namespace@ == "unknown"@,
        *error matches Error::Kube(m) ==> r.error_type@ == "kube"@ && message@
            == "Kubernetes API error: "@ + m@,
        *error matches Error::Observation(m) ==> r.error_type@ == "observation"@ && message@
            == "Observation error: "@ + m@,
        *error matches Error::Hpa(m) ==> r.error_type@ == "hpa"@ && message@
            == "HPA management error: "@ + m@,
{
}

/// The status says whether the autoscaler was reconciled: the resource is ready or it is
/// not, for the reason of the error. It was synced now. What else the resource's status
/// held before makes no difference to that.
pub proof fn law_status(
    name: &str,
    result: &Result<(), Error>,
    existing: &Option<ExternalPodAutoscaler>,
    now: &str,
    message: String,
    r: StatusPatch,
)
    requires
        call_ensures(patch_epa_status, (name, result, existing, now), r),
        result matches Err(e) ==> call_ensures(Error::message, (&e,), message),
    ensures
        r.managed_hpa.name@ == name@,
        r.managed_hpa.last_sync_time is Some && r.managed_hpa.last_sync_time->0@ == now@,
        r.condition.type_@ == "Ready"@,
        result is Ok ==> r.condition.status@ == "True"@ && r.condition.reason@ == "HpaSynced"@,
        result is Err ==> r.condition.status@ == "False"@ && r.condition.reason@ == "HpaError"@
            && r.condition.message@ == message@,
{
}

proof fn lemma_first_ready(conditions: Seq<Condition>, i: int)
    requires
        0 <= i <= conditions.len(),
        forall|k: int| 0 <= k < i ==> (#[trigger] conditions[k]).type_@ != "Ready"@,
        i < conditions.len() ==> conditions[i].type_@ == "Ready"@,
    ensures
        ready_at(conditions) == i,
    decreases conditions.len(),
{
    if i > 0 {
        let rest = conditions.drop_first();
        assert(conditions[0].type_@ != "Ready"@);
        assert forall|k: int| 0 <= k < i - 1 implies (#[trigger] rest[k]).type_@ != "Ready"@ by {
            assert(rest[k] == conditions[k + 1]);
        }
        lemma_first_ready(rest, i - 1);
    }
}

/// The time of the last transition is kept as long as the first condition `Ready`, wherever
/// it stands, says the same as before; else it is now.
pub proof fn law_status_keeps_the_transition(
    name: &str,
    result: &Result<(), Error>,
    existing: &Option<ExternalPodAutoscaler>,
    now: &str,
    r: StatusPatch,
    i: int,
)
    requires
        call_ensures(patch_epa_status, (name, result, existing, now), r),
        existing is Some && existing->0.status is Some,
        0 <= i <= existing->0.status->0.conditions@.len(),
        forall|k: int|
            0 <= k < i ==> (#[trigger] existing->0.status->0.conditions@[k]).type_@ != "Ready"@,
        i < existing->0.status->0.conditions@.len()
            ==> existing->0.status->0.conditions@[i].type_@ == "Ready"@,
    ensures
        ({
            let conditions = existing->0.status->0.conditions@;
            let said = if result is Ok {
                "True"@
            } else {
                "False"@
            };
            r.condition.last_transition_time@ == (if i < conditions.len() && conditions[i].status@
                == said {
                conditions[i].last_transition_time@
            } else {
                now@
            })
        }),
{
    lemma_first_ready(existing->0.status->0.conditions@, i);
}

/// Without a status that was read, the transition is now.
pub proof fn law_status_without_history(
    name: &str,
    result: &Result<(), Error>,
    existing: &Option<ExternalPodAutoscaler>,
    now: &str,
    r: StatusPatch,
)
    requires
        call_ensures(patch_epa_status, (name, result, existing, now), r),
        existing is None || existing->0.status is None,
    ensures
        r.condition.last_transition_time@ == now@,
{
}

/// What is observed of a resource is what the server answers: the resource, or that it is
/// not there. Any other refusal, or no answer, is an error and leaves what is known.
pub proof fn law_observation(
    observer: &StateObserver,
    observed: &mut ObservedState,
    lookup: Lookup,
    now: i64,
    r: Result<(), String>,
)
    requires
        call_ensures(StateObserver::observe, (observer, observed, lookup, now), r),
    ensures
        lookup matches Lookup::Found(epa) ==> r is Ok && final(observed).epa is Some
            && *final(observed).epa->0 == epa && final(observed).observe_time == now,
        lookup matches Lookup::Refused { code, message } ==> {
            &&& code == 404 ==> r is Ok && final(observed).epa is None
            &&& code != 404 ==> r is Err && r->Err_0@ == message@ && final(observed).epa
                == old(observed).epa
        },
        lookup matches Lookup::Failed(message) ==> r is Err && r->Err_0@ == message@
            && final(observed).epa == old(observed).epa,
        !(lookup is Found) ==> final(observed).observe_time == old(observed).observe_time,
{
}

/// A resource is being deleted exactly where it is there and is marked so.
pub proof fn law_deletion_is_seen(observed: &ObservedState, deleting: bool, exists_: bool)
    requires
        call_ensures(ObservedState::is_deleting, (observed,), deleting),
        call_ensures(ObservedState::epa_exists, (observed,), exists_),
    ensures
        exists_ == observed.epa is Some,
        deleting == (observed.epa is Some && observed.epa->0.metadata.deletion_timestamp is Some),
{
}

// ---------------------------------------------------------------------------
// Installation
// ---------------------------------------------------------------------------

/// What is there is replaced, in the version that was read, and what is not there is
/// created. Only a creation has to succeed.
pub proof fn law_installation(
    existing: Option<ObjectMeta>,
    step: InstallStep,
    done: bool,
    goes_on: bool,
)
    requires
        call_ensures(install_step, (existing,), step),
        call_ensures(may_go_on, (&step, done), goes_on),
    ensures
        existing is None <==> step is Create,
        existing is Some ==> (step matches InstallStep::Replace { resource_version: v } && v
            == existing->0.resource_version),
        !goes_on <==> existing is None && !done,
{
}

/// The metrics API is registered under its group and version, for the service that is
/// configured, whose certificate is checked. It takes the place of the registration that
/// it replaces.
pub proof fn law_registration_of_the_api(
    namespace: Option<String>,
    name: Option<String>,
    step: InstallStep,
    r: ApiService,
    registered: &str,
)
    requires
        call_ensures(register_api_service, (namespace, name, step), r),
        call_ensures(api_service_name, (), registered),
    ensures
        registered@ == "v1beta1.external.metrics.k8s.io"@,
        r.metadata.name is Some && r.metadata.name->0@ == registered@,
        r.group@ == "external.metrics.k8s.io"@,
        r.version@ == "v1beta1"@,
        r.service_port == 443,
        !r.insecure_skip_tls_verify,
        r.group_priority_minimum == 100,
        r.version_priority == 100,
        namespace matches Some(given) ==> r.service_namespace@ == given@,
        namespace is None ==> r.service_namespace@ == "epa-system"@,
        name matches Some(given) ==> r.service_name@ == given@,
        name is None ==> r.service_name@ == "epa-webhook"@,
        step matches InstallStep::Replace { resource_version: v } ==> r.metadata.resource_version
            == v,
        step is Create ==> r.metadata.resource_version is None,
{
}

// ---------------------------------------------------------------------------
// Leases and assignment
// ---------------------------------------------------------------------------

/// A replica is active exactly where one of the leases is its own and was renewed less
/// than the lease's duration ago.
pub proof fn law_active_replicas(
    manager: &mut MembershipManager,
    leases: &Vec<Lease>,
    now: i64,
    id: Seq<char>,
)
    requires
        call_ensures(MembershipManager::update_active_replicas, (manager, leases, now), ()),
    ensures
        final(manager).active_set().contains(id) == exists|i: int| {
            &&& 0 <= i < leases@.len()
            &&& (#[trigger] leases@[i]).metadata.name is Some
            &&& leases@[i].metadata.name->0@ == "epa-replica-"@ + id
            &&& leases@[i].spec is Some
            &&& leases@[i].spec->0.renew_time is Some
            &&& leases@[i].spec->0.lease_duration_seconds is Some
            &&& now < leases@[i].spec->0.renew_time->0 + 1_000_000
                * leases@[i].spec->0.lease_duration_seconds->0
        },
        final(manager).id() == old(manager).id(),
{
    reveal_strlit("epa-replica-");
    let head = "epa-replica-"@;
    let n = head.len() as int;
    let own = head + id;
    assert(own.take(n) =~= head);
    assert(own.skip(n) =~= id);
    if active_in(leases@, now, id) {
        let i = choose|i: int|
            0 <= i < leases@.len() && unexpired(#[trigger] leases@[i], now) && lease_replica(
                leases@[i],
            ) == Some(id);
        let name = leases@[i].metadata.name->0@;
        assert(name =~= name.take(n) + name.skip(n));
        assert(leases@[i].metadata.name->0@ == head + id);
    }
}

/// A resource is assigned to an active replica than which none weighs more; there is none
/// only where no replica is active. A replica takes on what is assigned to it.
pub proof fn law_assignment(
    assigner: &WorkAssigner,
    key: &str,
    r: Option<String>,
    other: &str,
    owner: &str,
    a: u64,
    b: u64,
)
    requires
        call_ensures(WorkAssigner::get_epa_owner, (assigner, key), r),
        r matches Some(id) ==> owner@ == id@,
        call_ensures(WorkAssigner::compute_weight, (owner, key), a),
        call_ensures(WorkAssigner::compute_weight, (other, key), b),
        assigner.replicas().contains(other@),
    ensures
        r is Some,
        assigner.replicas().contains(owner@),
        b <= a,
{
}

/// A metric is reconciled again after its own interval, and after five seconds where that
/// failed.
pub proof fn law_metrics_are_reconciled(
    spec: &metric_api::MetricSpec,
    error: &metric::Error,
    r: u64,
    again: u64,
)
    requires
        call_ensures(metric::reconcile, (spec,), r),
        call_ensures(metric::error_policy, (error,), again),
    ensures
        spec.target.interval_seconds >= 0 ==> r == spec.target.interval_seconds,
        again == 5,
{
}

/// A replica handles a resource only where it is active and no other active replica weighs
/// more, and does so where it is active and all others weigh less.
pub proof fn law_handled_resources(
    assigner: &WorkAssigner,
    namespace: &str,
    name: &str,
    r: bool,
    other: Seq<char>,
)
    requires
        call_ensures(WorkAssigner::should_handle_epa, (assigner, namespace, name), r),
    ensures
        ({
            let key = namespace@ + "/"@ + name@;
            let me = assigner.id();
            &&& r ==> assigner.replicas().contains(me)
            &&& r && assigner.replicas().contains(other) ==> weight_of(other, key) <= weight_of(
                me,
                key,
            )
            &&& assigner.replicas().contains(me) && (forall|id: Seq<char>|
                id != me && assigner.replicas().contains(id) ==> #[trigger] weight_of(id, key)
                    < weight_of(me, key)) ==> r
        }),
{
    let key = namespace@ + "/"@ + name@;
    let owner = choose|owner: Option<Seq<char>>| #[trigger]
        is_assigned(assigner.replicas(), key, owner) && r == (owner == Some(assigner.id()));
    if let Some(id) = owner {
        assert(assigner.replicas().contains(assigner.id()) ==> weight_of(assigner.id(), key)
            <= weight_of(id, key));
    } else {
        assert(!assigner.replicas().contains(assigner.id()));
    }
}

} // verus!
