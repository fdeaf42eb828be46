use external_pod_autoscaler::apis::externalpodautoscaler::{
    AggregationType, ExternalPodAutoscaler, ExternalPodAutoscalerSpec, MetricSpec,
    MetricTargetType, ScrapeConfig, TargetRef, TlsConfig,
};
use external_pod_autoscaler::k8s::{ObjectMeta, Pod};
use external_pod_autoscaler::membership::manager::MembershipManager;
use external_pod_autoscaler::membership::ownership::EpaOwnership;
use external_pod_autoscaler::names::{NameMap, NameSet};
use external_pod_autoscaler::scraper::scheduler::{
    max_samples, ScrapeRound, ScrapeStep, Scheduler,
};
use external_pod_autoscaler::scraper::service::{
    handle_update, job_capacity, worker_count, EpaUpdate,
};
use external_pod_autoscaler::store::ops::MetricsStore;
use external_pod_autoscaler::store::types::{LabeledSample, MetricType, SampleKey};
use std::sync::Arc;

const SECOND: u64 = 1_000_000_000;

fn metric(name: &str) -> MetricSpec {
    MetricSpec {
        metric_name: name.to_string(),
        type_: MetricTargetType::AverageValue,
        target_value: "50".to_string(),
        aggregation_type: None,
        evaluation_period: None,
        label_selector: None,
    }
}

fn epa() -> ExternalPodAutoscaler {
    let mut metadata = ObjectMeta::empty();
    metadata.name = Some("scaler".to_string());
    metadata.namespace = Some("default".to_string());
    ExternalPodAutoscaler {
        metadata,
        spec: ExternalPodAutoscalerSpec {
            min_replicas: 1,
            max_replicas: 5,
            scrape: ScrapeConfig {
                port: 8080,
                path: "/metrics".to_string(),
                interval: "15s".to_string(),
                timeout: "1s".to_string(),
                scheme: "http".to_string(),
                tls: None,
                evaluation_period: "1m".to_string(),
                aggregation_type: AggregationType::Max,
            },
            scrape_target_ref: None,
            scale_target_ref: TargetRef {
                api_version: "apps/v1".to_string(),
                kind: "Deployment".to_string(),
                name: "worker".to_string(),
            },
            metrics: vec![metric("a"), metric("b")],
            behavior: None,
        },
        status: None,
    }
}

fn lone_replica() -> MembershipManager {
    let mut membership = MembershipManager::new(
        "r".to_string(),
        "10.0.0.1".to_string(),
        "p".to_string(),
        "n".to_string(),
        8443,
    );
    let leases = vec![membership.lease(0)];
    membership.update_active_replicas(&leases, 0);
    membership
}

fn due(step: ScrapeStep) -> ScrapeRound {
    match step {
        ScrapeStep::Due(round) => round,
        other => panic!("{:?}", other),
    }
}

#[test]
fn a_resource_is_scraped_once_per_interval() {
    let membership = lone_replica();
    let mut ownership = EpaOwnership::new();
    let mut store = MetricsStore::new();
    let mut scheduler = Scheduler::new(0);
    let mut resource = epa();
    let key = "default/scaler";

    let step = scheduler.process_epa(&mut ownership, &membership, key, &resource, 0).unwrap();
    let round = due(step);
    assert_eq!(round.namespace, "default");
    assert_eq!(round.name, "scaler");
    assert_eq!(round.evaluation_period, 60 * SECOND as u128);
    assert_eq!(round.interval, 15 * SECOND as u128);
    assert_eq!(round.max_samples, 5);
    assert!(!round.use_insecure_tls);
    assert_eq!(round.target.name, "worker");
    scheduler.start_round(&mut store, key, &resource, &round, 0).unwrap();

    let early = 15 * SECOND - 1;
    let step = scheduler.process_epa(&mut ownership, &membership, key, &resource, early).unwrap();
    assert!(matches!(step, ScrapeStep::NotDue));
    let step =
        scheduler.process_epa(&mut ownership, &membership, key, &resource, early + 1).unwrap();
    due(step);

    // Another interval takes effect at once.
    resource.spec.scrape.interval = "30s".to_string();
    let step = scheduler.process_epa(&mut ownership, &membership, key, &resource, 1).unwrap();
    assert_eq!(due(step).interval, 30 * SECOND as u128);
}

#[test]
fn only_the_owner_scrapes() {
    let mut membership = lone_replica();
    membership.update_active_replicas(&vec![], 0);
    let mut ownership = EpaOwnership::new();
    let scheduler = Scheduler::new(0);
    let step = scheduler
        .process_epa(&mut ownership, &membership, "default/scaler", &epa(), 0)
        .unwrap();
    assert!(matches!(step, ScrapeStep::NotOwned));
}

#[test]
fn rounds_follow_the_resource() {
    let membership = lone_replica();
    let mut ownership = EpaOwnership::new();
    let scheduler = Scheduler::new(0);
    let mut resource = epa();
    resource.spec.scrape.tls = Some(TlsConfig { insecure_skip_verify: true });
    resource.spec.scrape_target_ref = Some(TargetRef {
        api_version: "apps/v1".to_string(),
        kind: "StatefulSet".to_string(),
        name: "source".to_string(),
    });
    let step = scheduler
        .process_epa(&mut ownership, &membership, "default/scaler", &resource, 0)
        .unwrap();
    let round = due(step);
    assert!(round.use_insecure_tls);
    assert_eq!(round.target.name, "source");
    let pod = Pod { metadata: ObjectMeta::empty(), status: None };
    let mut named = pod.clone();
    named.metadata.name = Some("second".to_string());
    let resource = Arc::new(resource);
    let job = round.job(Arc::clone(&resource), Arc::new(pod.clone()));
    assert_eq!(job.max_samples, 5);
    assert!(job.use_insecure_tls);
    assert!(round.jobs(&resource, &vec![]).is_empty());
    let jobs = round.jobs(&resource, &vec![Arc::new(pod), Arc::new(named)]);
    assert_eq!(jobs.len(), 2);
    assert_eq!(jobs[0].pod.metadata.name, None);
    assert_eq!(jobs[1].pod.metadata.name.as_deref(), Some("second"));
    assert!(jobs.iter().all(|job| job.max_samples == 5 && job.use_insecure_tls));
    assert_eq!(
        round.channel_closed(),
        "Job channel closed while sending job for EPA default/scaler"
    );
}

#[test]
fn what_cannot_be_read_is_an_error() {
    let membership = lone_replica();
    let mut ownership = EpaOwnership::new();
    let scheduler = Scheduler::new(0);
    let mut resource = epa();
    let mut process = |key: &str, resource: &ExternalPodAutoscaler| {
        scheduler.process_epa(&mut ownership, &membership, key, resource, 0).unwrap_err()
    };
    assert_eq!(process("scaler", &resource), "Invalid EPA key format: scaler");
    resource.spec.scrape.interval = "often".to_string();
    assert!(process("a/b", &resource).starts_with("Invalid duration 'often': "));
    resource.spec.scrape.evaluation_period = "".to_string();
    assert!(process("a/b", &resource).starts_with("Invalid duration '': "));
}

#[test]
fn windows_hold_a_whole_evaluation_period() {
    let s = SECOND as u128;
    assert_eq!(max_samples(60 * s, 15 * s), Some(5));
    assert_eq!(max_samples(61 * s, 15 * s), Some(6));
    assert_eq!(max_samples(0, 15 * s), Some(2));
    assert_eq!(max_samples(3 * s, s / 10), Some(4));
    assert_eq!(max_samples(u64::MAX as u128 * s, s), None);
}

#[test]
fn configs_are_set_up_to_the_first_that_cannot_be_read() {
    let membership = lone_replica();
    let mut ownership = EpaOwnership::new();
    let mut store = MetricsStore::new();
    let mut scheduler = Scheduler::new(0);
    let mut resource = epa();
    resource.spec.metrics[0].aggregation_type = Some(AggregationType::Min);
    resource.spec.metrics[0].evaluation_period = Some("30s".to_string());
    let mut bad = metric("c");
    bad.evaluation_period = Some("never".to_string());
    resource.spec.metrics.push(bad);
    resource.spec.metrics.push(metric("d"));
    let step = scheduler
        .process_epa(&mut ownership, &membership, "default/scaler", &resource, 0)
        .unwrap();
    let round = due(step);
    let error =
        scheduler.start_round(&mut store, "default/scaler", &resource, &round, 0).unwrap_err();
    assert!(error.starts_with("Invalid duration 'never': "));
    let a = store.get_metric_config("default", "scaler", "a");
    assert_eq!(a.aggregation_type, AggregationType::Min);
    assert_eq!(a.evaluation_period, 30 * SECOND as u128);
    let b = store.get_metric_config("default", "scaler", "b");
    assert_eq!(b.aggregation_type, AggregationType::Max);
    assert_eq!(b.evaluation_period, 60 * SECOND as u128);
    let d = store.get_metric_config("default", "scaler", "d");
    assert_eq!(d.aggregation_type, AggregationType::Avg);
    // The schedule advances all the same.
    let step = scheduler
        .process_epa(&mut ownership, &membership, "default/scaler", &resource, 1)
        .unwrap();
    assert!(matches!(step, ScrapeStep::NotDue));
}

#[test]
fn ticks_forget_and_evict() {
    let membership = lone_replica();
    let mut ownership = EpaOwnership::new();
    let mut store = MetricsStore::new();
    let mut scheduler = Scheduler::new(0);
    let resource = epa();
    let key = "default/scaler";
    let step = scheduler.process_epa(&mut ownership, &membership, key, &resource, 0).unwrap();
    let round = due(step);
    scheduler.start_round(&mut store, key, &resource, &round, 0).unwrap();
    let sample = LabeledSample {
        value: "1".to_string(),
        scraped_at: 0,
        success: true,
        metric_type: MetricType::Gauge,
    };
    let window = SampleKey::new(
        "default".to_string(),
        "scaler".to_string(),
        "a".to_string(),
        "pod".to_string(),
    );
    store.push_sample(window, sample, 5);

    let mut active = NameSet::new();
    active.insert(key.to_string());
    assert_eq!(scheduler.finish_tick(&active, &mut store, 59 * SECOND), 0);
    assert_eq!(scheduler.finish_tick(&active, &mut store, 100 * SECOND), 0);
    let step = scheduler.process_epa(&mut ownership, &membership, key, &resource, 1).unwrap();
    assert!(matches!(step, ScrapeStep::NotDue));
    // Nothing is looked for until a minute has passed.
    assert_eq!(scheduler.finish_tick(&active, &mut store, 159 * SECOND), 0);
    assert_eq!(scheduler.finish_tick(&NameSet::new(), &mut store, 160 * SECOND), 1);
    let step = scheduler.process_epa(&mut ownership, &membership, key, &resource, 1).unwrap();
    due(step);
}

#[test]
fn updates_register_and_unregister() {
    let mut active: NameMap<Arc<ExternalPodAutoscaler>> = NameMap::new();
    let mut store = MetricsStore::new();
    let mut resource = epa();
    resource.spec.metrics[0].evaluation_period = Some("never".to_string());
    handle_update(&mut active, &mut store, EpaUpdate::Upsert(Arc::new(resource.clone())));
    assert!(active.contains_key("default/scaler"));
    let a = store.get_metric_config("default", "scaler", "a");
    assert_eq!(a.aggregation_type, AggregationType::Avg);
    let b = store.get_metric_config("default", "scaler", "b");
    assert_eq!(b.aggregation_type, AggregationType::Max);

    let mut other = resource.clone();
    other.metadata.name = Some("late".to_string());
    other.spec.scrape.evaluation_period = "?".to_string();
    handle_update(&mut active, &mut store, EpaUpdate::Upsert(Arc::new(other)));
    assert!(active.contains_key("default/late"));
    let unset = store.get_metric_config("default", "late", "b");
    assert_eq!(unset.aggregation_type, AggregationType::Avg);

    resource.metadata.namespace = None;
    handle_update(&mut active, &mut store, EpaUpdate::Upsert(Arc::new(resource)));
    assert_eq!(active.len(), 2);

    let gone = EpaUpdate::Delete { namespace: "default".to_string(), name: "scaler".to_string() };
    handle_update(&mut active, &mut store, gone);
    assert!(!active.contains_key("default/scaler"));
    assert_eq!(active.len(), 1);
}

#[test]
fn workers_and_their_jobs() {
    assert_eq!(worker_count(None), 20);
    assert_eq!(worker_count(Some("4")), 4);
    assert_eq!(worker_count(Some("0")), 1);
    assert_eq!(worker_count(Some("many")), 20);
    assert_eq!(worker_count(Some("-1")), 20);
    assert_eq!(job_capacity(20), 1280);
}
