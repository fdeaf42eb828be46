use external_pod_autoscaler::apis::externalpodautoscaler::{
    AggregationType, ExternalPodAutoscaler, ExternalPodAutoscalerSpec,
    ExternalPodAutoscalerStatus, MetricSpec, MetricTargetType, ScalingBehavior, ScalingPolicy,
    ScalingRules, ScrapeConfig, TargetRef,
};
use external_pod_autoscaler::apis::metric as crd;
use external_pod_autoscaler::controller::externalpodautoscaler::observer::{
    Lookup, ObservedState, StateObserver,
};
use external_pod_autoscaler::controller::externalpodautoscaler::reconcile::{
    after_apply, build_hpa_spec, epa_name_namespace, error_policy, field_manager, forget,
    patch_epa_status, reconcile, reconcile_hpa, Error, ReconcileStep,
};
use external_pod_autoscaler::controller::membership::MembershipManager as PlainManager;
use external_pod_autoscaler::controller::metric;
use external_pod_autoscaler::controller::run::{
    api_service_name, install_step, may_go_on, register_api_service, InstallStep,
};
use external_pod_autoscaler::controller::work_assigner::WorkAssigner;
use external_pod_autoscaler::k8s::{Lease, LeaseSpec, ObjectMeta};
use external_pod_autoscaler::membership::manager::MembershipManager;
use external_pod_autoscaler::membership::ownership::EpaOwnership;
use external_pod_autoscaler::scraper::service::EpaUpdate;
use external_pod_autoscaler::store::ops::MetricsStore;
use external_pod_autoscaler::store::types::MetricConfig;
use std::hash::{Hash, Hasher};
use std::sync::Arc;

const NOW: i64 = 1_700_000_000_000_000;

fn basic_epa() -> ExternalPodAutoscaler {
    let mut metadata = ObjectMeta::empty();
    metadata.name = Some("queue-worker-scaler".to_string());
    metadata.namespace = Some("production".to_string());
    metadata.uid = Some("aaaaaaaa-bbbb-cccc-dddd-eeeeeeeeeeee".to_string());
    ExternalPodAutoscaler {
        metadata,
        spec: ExternalPodAutoscalerSpec {
            min_replicas: 1,
            max_replicas: 5,
            scrape: ScrapeConfig {
                port: 8080,
                path: "/metrics".to_string(),
                interval: "15s".to_string(),
                timeout: "1s".to_string(),
                scheme: "http".to_string(),
                tls: None,
                evaluation_period: "60s".to_string(),
                aggregation_type: AggregationType::Avg,
            },
            scrape_target_ref: None,
            scale_target_ref: TargetRef {
                api_version: "apps/v1".to_string(),
                kind: "Deployment".to_string(),
                name: "worker".to_string(),
            },
            metrics: vec![MetricSpec {
                metric_name: "queue_depth".to_string(),
                type_: MetricTargetType::AverageValue,
                target_value: "50".to_string(),
                aggregation_type: None,
                evaluation_period: None,
                label_selector: None,
            }],
            behavior: None,
        },
        status: None,
    }
}

fn deleting_epa() -> ExternalPodAutoscaler {
    let mut epa = basic_epa();
    epa.metadata.deletion_timestamp = Some(NOW);
    epa
}

fn observed(epa: ExternalPodAutoscaler) -> ObservedState {
    let observer = StateObserver::new("production".to_string(), "queue-worker-scaler".to_string());
    let mut state = ObservedState::new(0);
    observer.observe(&mut state, Lookup::Found(epa), NOW).unwrap();
    state
}

/// Whether a replica that alone is registered owns the resource.
fn is_owner(registered: bool) -> bool {
    let mut membership = MembershipManager::new(
        "test-uid".to_string(),
        "127.0.0.1".to_string(),
        "test-pod".to_string(),
        "default".to_string(),
        8443,
    );
    if registered {
        let leases = vec![membership.lease(NOW)];
        membership.update_active_replicas(&leases, NOW);
    }
    EpaOwnership::is_epa_owner(&membership, "production", "queue-worker-scaler")
}

fn step(epa: ExternalPodAutoscaler, owner: bool) -> ReconcileStep {
    reconcile(&observed(epa), is_owner(owner), "queue-worker-scaler", "production")
}

// New EPA with no existing HPA — HPA should be created with correct ownerRef and metrics.
#[test]
fn reconcile_creates_hpa() {
    let hpa = match step(basic_epa(), true) {
        ReconcileStep::Apply(hpa) => hpa,
        other => panic!("{:?}", other),
    };
    assert_eq!(hpa.metadata.name.as_deref(), Some("queue-worker-scaler"));

    let owners = hpa.metadata.owner_references.as_ref().unwrap();
    let owner_ref = owners.first().expect("HPA should have at least one ownerReference");
    assert_eq!(owner_ref.uid, "aaaaaaaa-bbbb-cccc-dddd-eeeeeeeeeeee");
    assert_eq!(owner_ref.name, "queue-worker-scaler");

    assert_eq!(hpa.spec.scale_target_ref.name, "worker");
    assert_eq!(hpa.spec.max_replicas, 5);

    let external_metric = &hpa.spec.metrics.first().unwrap().external;
    let expected_metric_name = "queue-worker-scaler-production-queue_depth";
    assert_eq!(external_metric.metric_name, expected_metric_name);
    assert_eq!(external_metric.target.type_, "AverageValue");
    assert_eq!(external_metric.target.average_value.as_deref(), Some("50"));
    assert!(external_metric.target.value.is_none());
}

// EPA changed — existing HPA should be replaced with updated spec.
#[test]
fn reconcile_updates_existing_hpa() {
    match step(basic_epa(), true) {
        ReconcileStep::Apply(hpa) => assert_eq!(
            hpa.spec.max_replicas, 5,
            "HPA maxReplicas should be updated to match EPA"
        ),
        other => panic!("{:?}", other),
    }
    assert_eq!(field_manager(), "external-pod-autoscaler");
}

// Successful reconcile — EPA status should be patched with Ready=True condition.
#[test]
fn reconcile_sets_ready_status() {
    let result = reconcile_hpa(Ok(()));
    let patch = patch_epa_status("queue-worker-scaler", &result, &Some(basic_epa()), "t1");
    assert_eq!(patch.condition.type_, "Ready");
    assert_eq!(
        patch.condition.status, "True",
        "Ready condition should be True after successful reconcile"
    );
    assert_eq!(patch.condition.reason, "HpaSynced");
    assert_eq!(patch.condition.message, "HPA successfully reconciled");
    assert_eq!(patch.condition.last_transition_time, "t1");
    assert_eq!(patch.managed_hpa.name, "queue-worker-scaler");
    assert_eq!(patch.managed_hpa.last_sync_time.as_deref(), Some("t1"));
}

// EPA with deletionTimestamp — scraper should receive EpaUpdate::Delete.
#[test]
fn reconcile_deletion_notifies_scraper() {
    match step(deleting_epa(), true) {
        ReconcileStep::Delete(EpaUpdate::Delete { namespace: ns, name: n }) => {
            assert_eq!(ns, "production");
            assert_eq!(n, "queue-worker-scaler");
        }
        other => panic!("expected EpaUpdate::Delete, got {:?}", other),
    }
}

#[test]
fn a_deleted_resource_is_forgotten() {
    let mut store = MetricsStore::new();
    let config = MetricConfig::with_period(AggregationType::Max, 5);
    store.set_metric_config("production", "scaler", "m", config);
    store.set_metric_config("production", "other", "m", config);
    store.cache_result("production", "scaler", "m", 7, 100, 0);
    match forget(&mut store, "production", "scaler") {
        EpaUpdate::Delete { namespace, name } => {
            assert_eq!(namespace, "production");
            assert_eq!(name, "scaler");
        }
        other => panic!("expected EpaUpdate::Delete, got {:?}", other),
    }
    assert_eq!(store.get_cached("production", "scaler", "m", 1), None);
    assert_eq!(
        store.get_metric_config("production", "scaler", "m").evaluation_period,
        MetricConfig::default().evaluation_period
    );
    assert_eq!(store.get_metric_config("production", "other", "m").evaluation_period, 5);
}

// Successful reconcile should send EpaUpdate::Upsert to the scraper channel.
#[test]
fn reconcile_notifies_scraper_on_upsert() {
    let state = observed(basic_epa());
    let step = reconcile(&state, is_owner(true), "queue-worker-scaler", "production");
    assert!(matches!(step, ReconcileStep::Apply(_)));

    let applied = reconcile_hpa(Ok(()));
    match after_apply(&state, &applied) {
        Some(EpaUpdate::Upsert(epa_arc)) => assert_eq!(
            epa_arc.metadata.name.as_deref(),
            Some("queue-worker-scaler"),
            "Upsert should contain the reconciled EPA"
        ),
        other => panic!("expected EpaUpdate::Upsert, got {:?}", other),
    }
}

// A failed apply comes back as an error, and the scraper is not told.
#[test]
fn a_failed_apply_tells_the_scraper_nothing() {
    let state = observed(basic_epa());
    let applied = reconcile_hpa(Err("conflict".to_string()));
    assert!(after_apply(&state, &applied).is_none());
    match applied {
        Err(Error::Hpa(m)) => assert_eq!(m, "Failed to apply HPA: conflict"),
        other => panic!("{:?}", other),
    }
    assert!(after_apply(&ObservedState::new(NOW), &Ok(())).is_none());
}

// Non-owner replica deletion — scraper should NOT receive Delete notification.
#[test]
fn reconcile_deletion_works_when_not_owner() {
    assert!(
        matches!(step(deleting_epa(), false), ReconcileStep::Done),
        "non-owner should not send scraper messages on deletion"
    );
}

// Non-owner replica — HPA should NOT be created, but scraper should still receive Upsert.
#[test]
fn reconcile_skips_hpa_when_not_owner() {
    match step(basic_epa(), false) {
        ReconcileStep::Apply(_) => panic!("HPA should not exist when replica is not the owner"),
        ReconcileStep::Notify(EpaUpdate::Upsert(epa_arc)) => assert_eq!(
            epa_arc.metadata.name.as_deref(),
            Some("queue-worker-scaler"),
            "Upsert should contain the reconciled EPA"
        ),
        other => panic!("expected EpaUpdate::Upsert, got {:?}", other),
    }
}

#[test]
fn reconcile_passes_over_what_is_gone() {
    let state = ObservedState::new(NOW);
    assert!(matches!(reconcile(&state, true, "a", "b"), ReconcileStep::Done));
}

#[test]
fn an_autoscaler_needs_name_namespace_and_uid() {
    let mut epa = basic_epa();
    epa.metadata.uid = None;
    match step(epa.clone(), true) {
        ReconcileStep::Fail(Error::Hpa(m)) => assert_eq!(
            m,
            "ExternalPodAutoscaler production/queue-worker-scaler missing required UID for owner reference"
        ),
        other => panic!("{:?}", other),
    }
    epa.metadata.namespace = None;
    match build_hpa_spec(&epa) {
        Err(Error::Observation(m)) => assert_eq!(m, "EPA missing metadata.namespace"),
        other => panic!("{:?}", other),
    }
    epa.metadata.name = None;
    match epa_name_namespace(&epa) {
        Err(e) => assert_eq!(e.message(), "Observation error: EPA missing metadata.name"),
        Ok(found) => panic!("{:?}", found),
    }
    let report = error_policy(&epa, &Error::Kube("x".to_string()));
    assert_eq!((report.name.as_str(), report.namespace.as_str()), ("unknown", "unknown"));
    assert_eq!(report.error_type, "kube");
    assert_eq!(report.requeue_seconds, 60);
}

#[test]
fn behavior_is_handed_on() {
    let mut epa = basic_epa();
    epa.spec.metrics[0].type_ = MetricTargetType::Value;
    epa.spec.behavior = Some(ScalingBehavior {
        scale_up: Some(ScalingRules {
            stabilization_window_seconds: Some(30),
            policies: Some(vec![ScalingPolicy {
                type_: "Pods".to_string(),
                value: 4,
                period_seconds: 60,
            }]),
            select_policy: Some("Max".to_string()),
        }),
        scale_down: None,
    });
    let hpa = build_hpa_spec(&epa).unwrap();
    let target = &hpa.spec.metrics[0].external.target;
    assert_eq!(target.type_, "Value");
    assert_eq!(target.value.as_deref(), Some("50"));
    assert!(target.average_value.is_none());
    let behavior = hpa.spec.behavior.unwrap();
    assert!(behavior.scale_down.is_none());
    let up = behavior.scale_up.unwrap();
    assert_eq!(up.stabilization_window_seconds, Some(30));
    assert_eq!(up.select_policy.as_deref(), Some("Max"));
    let policies = up.policies.unwrap();
    assert_eq!(policies.len(), 1);
    assert_eq!(policies[0].type_, "Pods");
    assert_eq!((policies[0].value, policies[0].period_seconds), (4, 60));
}

#[test]
fn transition_time_changes_with_the_state_only() {
    let name = "queue-worker-scaler";
    let ok = reconcile_hpa(Ok(()));
    let bad = reconcile_hpa(Err("boom".to_string()));
    let first = patch_epa_status(name, &ok, &None, "t1");
    let mut epa = basic_epa();
    let mut status = ExternalPodAutoscalerStatus::default();
    status.conditions = vec![first.condition];
    epa.status = Some(status);
    let again = patch_epa_status(name, &ok, &Some(epa.clone()), "t2");
    assert_eq!(again.condition.last_transition_time, "t1");
    assert_eq!(again.managed_hpa.last_sync_time.as_deref(), Some("t2"));
    let failed = patch_epa_status(name, &bad, &Some(epa), "t3");
    assert_eq!(failed.condition.last_transition_time, "t3");
    assert_eq!(failed.condition.status, "False");
    assert_eq!(failed.condition.reason, "HpaError");
    assert_eq!(
        failed.condition.message,
        "HPA management error: Failed to apply HPA: boom"
    );
}

// EPA exists — ObservedState should have the epa field populated.
#[test]
fn observe_existing_epa() {
    let observed = observed(basic_epa());
    assert!(
        observed.epa_exists(),
        "epa should be populated when the resource exists"
    );
    let observed_epa = observed.epa.as_ref().expect("expected epa to be Some after observe");
    assert_eq!(
        observed_epa.metadata.name.as_deref(),
        Some("queue-worker-scaler"),
        "epa name should match"
    );
    assert_eq!(
        observed_epa.metadata.namespace.as_deref(),
        Some("production"),
        "epa namespace should match"
    );
    assert_ne!(
        observed.observe_time, 0,
        "observe_time should be updated after a successful observation"
    );
}

// EPA exists but is another one — epa should be Some.
#[test]
fn observe_epa_self_scaling() {
    let mut epa = basic_epa();
    epa.metadata.name = Some("api-scaler".to_string());
    epa.metadata.namespace = Some("staging".to_string());
    let observer = StateObserver::new("staging".to_string(), "api-scaler".to_string());
    let mut observed = ObservedState { epa: None, observe_time: 0 };
    observer.observe(&mut observed, Lookup::Found(epa), NOW).unwrap();

    assert!(
        observed.epa_exists(),
        "epa should be populated when the resource exists"
    );
    let observed_epa = observed.epa.as_ref().expect("expected epa to be Some after observe");
    assert_eq!(
        observed_epa.metadata.name.as_deref(),
        Some("api-scaler"),
        "epa name should match"
    );
    assert_ne!(
        observed.observe_time, 0,
        "observe_time should be updated after a successful observation"
    );
}

// EPA does not exist — epa should be None and no error should be returned.
#[test]
fn observe_missing_epa() {
    let observer = StateObserver::new("default".to_string(), "nonexistent-scaler".to_string());
    let initial_time = 0;
    let mut observed = ObservedState { epa: None, observe_time: initial_time };
    let lookup = Lookup::Refused { code: 404, message: "not found".to_string() };
    observer.observe(&mut observed, lookup, NOW).unwrap();

    assert!(
        !observed.epa_exists(),
        "epa should be None when the resource does not exist"
    );
    assert_eq!(
        observed.observe_time, initial_time,
        "observe_time should not be updated when the epa is not found (early return path)"
    );
}

// EPA has a deletionTimestamp — is_deleting() should return true.
#[test]
fn observe_deleting_epa() {
    let observed = observed(deleting_epa());
    assert!(
        observed.epa_exists(),
        "epa should be populated even when it has a deletionTimestamp"
    );
    let observed_epa = observed.epa.as_ref().expect("expected epa to be Some after observe");
    assert!(
        observed_epa.metadata.deletion_timestamp.is_some(),
        "observed epa should retain the deletion_timestamp"
    );
    assert!(
        observed.is_deleting(),
        "is_deleting() should return true when deletionTimestamp is set"
    );
}

#[test]
fn observe_errors_leave_the_state() {
    let observer = StateObserver::new("n".to_string(), "e".to_string());
    let mut state = observed(basic_epa());
    let refused = Lookup::Refused { code: 500, message: "down".to_string() };
    assert_eq!(observer.observe(&mut state, refused, NOW + 1), Err("down".to_string()));
    let failed = Lookup::Failed("timeout".to_string());
    assert_eq!(observer.observe(&mut state, failed, NOW + 1), Err("timeout".to_string()));
    assert!(state.epa_exists());
    assert_eq!(state.observe_time, NOW);
    assert!(!state.is_deleting());
}

#[test]
fn install_crd_creates_when_missing() {
    let step = install_step(None);
    assert!(matches!(step, InstallStep::Create));
    assert!(may_go_on(&step, true));
    assert!(!may_go_on(&step, false));
}

#[test]
fn install_crd_updates_when_exists() {
    let mut existing = ObjectMeta::empty();
    existing.name = Some("epas.ctx.sh".to_string());
    existing.resource_version = Some("42".to_string());
    let step = install_step(Some(existing));
    match &step {
        InstallStep::Replace { resource_version } => {
            assert_eq!(resource_version.as_deref(), Some("42"))
        }
        InstallStep::Create => panic!("it exists"),
    }
    assert!(may_go_on(&step, false));
}

#[test]
fn register_api_service_creates() {
    let found = register_api_service(None, None, install_step(None));
    assert_eq!(found.metadata.name.as_deref(), Some("v1beta1.external.metrics.k8s.io"));
    assert_eq!(api_service_name(), "v1beta1.external.metrics.k8s.io");
    assert_eq!(found.group, "external.metrics.k8s.io");
    assert_eq!(found.version, "v1beta1");
    assert_eq!(found.service_namespace, "epa-system");
    assert_eq!(found.service_name, "epa-webhook");
    assert_eq!(found.service_port, 443);
    assert!(!found.insecure_skip_tls_verify);
    assert!(found.metadata.resource_version.is_none());
}

#[test]
fn register_api_service_updates() {
    let mut existing = ObjectMeta::empty();
    existing.name = Some("v1beta1.external.metrics.k8s.io".to_string());
    existing.resource_version = Some("7".to_string());
    let found = register_api_service(
        Some("other".to_string()),
        Some("service".to_string()),
        install_step(Some(existing)),
    );
    assert_eq!(found.metadata.name.as_deref(), Some("v1beta1.external.metrics.k8s.io"));
    assert_eq!(found.metadata.resource_version.as_deref(), Some("7"));
    assert_eq!(found.service_namespace, "other");
    assert_eq!(found.service_name, "service");
}

#[test]
fn test_compute_weight_deterministic() {
    let weight1 = WorkAssigner::compute_weight("replica-1", "default/test-epa");
    let weight2 = WorkAssigner::compute_weight("replica-1", "default/test-epa");
    assert_eq!(weight1, weight2, "Hash should be deterministic");
}

#[test]
fn test_compute_weight_different_inputs() {
    let weight1 = WorkAssigner::compute_weight("replica-1", "default/epa-1");
    let weight2 = WorkAssigner::compute_weight("replica-2", "default/epa-1");
    let weight3 = WorkAssigner::compute_weight("replica-1", "default/epa-2");

    assert_ne!(
        weight1, weight2,
        "Different replicas should produce different hashes"
    );
    assert_ne!(
        weight1, weight3,
        "Different EPAs should produce different hashes"
    );
}

#[test]
fn compute_weight_is_the_hash_of_two_strings() {
    let mut hasher = std::collections::hash_map::DefaultHasher::new();
    "replica-1".hash(&mut hasher);
    "default/epa-1".hash(&mut hasher);
    assert_eq!(
        WorkAssigner::compute_weight("replica-1", "default/epa-1"),
        hasher.finish()
    );
}

fn make_active_lease(replica_id: &str) -> Lease {
    let mut metadata = ObjectMeta::empty();
    metadata.name = Some(format!("epa-replica-{}", replica_id));
    metadata.namespace = Some("test-ns".to_string());
    Lease {
        metadata,
        spec: Some(LeaseSpec {
            holder_identity: Some("10.0.0.1:8443".to_string()),
            lease_duration_seconds: Some(30),
            renew_time: Some(NOW),
            acquire_time: Some(NOW),
        }),
    }
}

fn assigner(id: &str, leases: &Vec<Lease>) -> WorkAssigner {
    let mut manager = PlainManager::new(
        id.to_string(),
        "10.0.0.1".to_string(),
        format!("epa-pod-{}", id),
        "test-ns".to_string(),
        8443,
    );
    manager.update_active_replicas(leases, NOW);
    WorkAssigner::new(Arc::new(manager))
}

// Single replica — should_handle_epa always returns true for the sole owner.
#[test]
fn should_handle_epa_returns_true_for_owner() {
    let assigner = assigner("replica-1", &vec![make_active_lease("replica-1")]);
    assert!(
        assigner.should_handle_epa("default", "test-epa"),
        "Single replica should always be the owner"
    );
}

// Two replicas — only the owner replica returns true for should_handle_epa.
#[test]
fn should_handle_epa_returns_false_for_non_owner() {
    let leases = vec![make_active_lease("replica-a"), make_active_lease("replica-b")];
    let a_handles = assigner("replica-a", &leases).should_handle_epa("default", "test-epa");
    let b_handles = assigner("replica-b", &leases).should_handle_epa("default", "test-epa");

    // Exactly one should be true
    assert_ne!(
        a_handles, b_handles,
        "Exactly one replica should own the EPA, got a={}, b={}",
        a_handles, b_handles
    );
}

// No active replicas — get_epa_owner returns None.
#[test]
fn work_assigner_test_get_epa_owner_no_replicas() {
    let assigner = assigner("replica-lonely", &vec![]);
    assert!(
        assigner.get_epa_owner("default/test-epa").is_none(),
        "No active replicas should produce None owner"
    );
    assert!(!assigner.should_handle_epa("default", "test-epa"));
}

// get_epa_owner is deterministic — same inputs produce same owner.
#[test]
fn work_assigner_test_get_epa_owner_consistent() {
    let assigner = assigner("replica-1", &vec![make_active_lease("replica-1")]);
    let owner1 = assigner.get_epa_owner("default/test-epa");
    let owner2 = assigner.get_epa_owner("default/test-epa");
    assert_eq!(
        owner1, owner2,
        "get_epa_owner should return the same owner for the same input"
    );
    assert!(owner1.is_some(), "Owner should be Some when replicas are active");
}

#[test]
fn metrics_are_reconciled_at_their_interval() {
    let target = crd::MetricTarget::deserialize(crd::MetricTargetFields {
        port: None,
        path: None,
        interval_seconds: Some(45),
        timeout_seconds: None,
        metric_name: "m".to_string(),
        value_type: None,
        window_duration_seconds: None,
        aggregation: None,
    });
    let mut spec = crd::MetricSpec {
        selector: crd::Selector { match_labels: None, match_expressions: None },
        target,
    };
    assert_eq!(metric::reconcile(&spec), 45);
    spec.target.interval_seconds = -1;
    assert_eq!(metric::reconcile(&spec), u64::MAX);
    let error = metric::Error::StatusError("x".to_string());
    assert_eq!(error.message(), "Status updater error; x");
    assert_eq!(metric::error_policy(&error), 5);
}
