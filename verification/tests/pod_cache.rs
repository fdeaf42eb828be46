use external_pod_autoscaler::k8s::{ObjectMeta, Pod, PodCondition, PodStatus};
use external_pod_autoscaler::labels::Labels;
use external_pod_autoscaler::scraper::pod_cache::{
    choose_pods, is_pod_ready, parse_label_selector, pod_matches_selector, EnsureStep, PodCache,
    SyncOutcome, SyncStep,
};

#[test]
fn parse_label_selector_basic() {
    let pairs = parse_label_selector("app=worker,tier=backend");
    assert_eq!(pairs.len(), 2);
    assert_eq!(pairs[0], ("app".to_string(), "worker".to_string()));
    assert_eq!(pairs[1], ("tier".to_string(), "backend".to_string()));
}

#[test]
fn parse_label_selector_empty() {
    let pairs = parse_label_selector("");
    assert!(pairs.is_empty());
}

#[test]
fn parse_label_selector_single() {
    let pairs = parse_label_selector("app=queue");
    assert_eq!(pairs, vec![("app".to_string(), "queue".to_string())]);
}

#[test]
fn parse_label_selector_value_with_equals() {
    // Values that themselves contain '=' should be preserved.
    let pairs = parse_label_selector("key=val=ue");
    assert_eq!(pairs, vec![("key".to_string(), "val=ue".to_string())]);
}

#[test]
fn parse_label_selector_passes_over_what_is_no_pair() {
    let pairs = parse_label_selector(" app = worker ,lonely,=nokey,");
    assert_eq!(pairs, vec![("app".to_string(), "worker".to_string())]);
}

fn make_pod(
    phase: Option<&str>,
    pod_ip: Option<&str>,
    ready: Option<&str>,
    labels: Option<Vec<(&str, &str)>>,
) -> Pod {
    let conditions = ready.map(|status| {
        vec![PodCondition { type_: "Ready".to_string(), status: status.to_string() }]
    });
    let mut metadata = ObjectMeta::empty();
    metadata.labels = labels.map(|ls| {
        let mut all = Labels::new();
        for (k, v) in ls {
            all.insert(k.to_string(), v.to_string());
        }
        all
    });
    Pod {
        metadata,
        status: Some(PodStatus {
            phase: phase.map(str::to_string),
            pod_ip: pod_ip.map(str::to_string),
            conditions,
        }),
    }
}

#[test]
fn is_pod_ready_running_with_ip_and_ready() {
    let pod = make_pod(Some("Running"), Some("10.0.0.1"), Some("True"), None);
    assert!(is_pod_ready(&pod));
}

#[test]
fn is_pod_ready_pending_phase() {
    let pod = make_pod(Some("Pending"), Some("10.0.0.1"), Some("True"), None);
    assert!(!is_pod_ready(&pod));
}

#[test]
fn is_pod_ready_no_ip() {
    let pod = make_pod(Some("Running"), None, Some("True"), None);
    assert!(!is_pod_ready(&pod));
}

#[test]
fn is_pod_ready_condition_false() {
    let pod = make_pod(Some("Running"), Some("10.0.0.1"), Some("False"), None);
    assert!(!is_pod_ready(&pod));
}

#[test]
fn is_pod_ready_terminating() {
    let mut pod = make_pod(Some("Running"), Some("10.0.0.1"), Some("True"), None);
    pod.metadata.deletion_timestamp = Some(1_700_000_000_000_000);
    assert!(!is_pod_ready(&pod));
}

#[test]
fn pod_matches_selector_all_labels_present() {
    let pod = make_pod(
        Some("Running"),
        Some("10.0.0.1"),
        Some("True"),
        Some(vec![("app", "worker"), ("tier", "backend")]),
    );
    let pairs = parse_label_selector("app=worker,tier=backend");
    assert!(pod_matches_selector(&pod, &pairs));
}

#[test]
fn pod_matches_selector_missing_label() {
    let pod = make_pod(
        Some("Running"),
        Some("10.0.0.1"),
        Some("True"),
        Some(vec![("app", "worker")]),
    );
    let pairs = parse_label_selector("app=worker,tier=backend");
    assert!(!pod_matches_selector(&pod, &pairs));
}

#[test]
fn pod_matches_selector_wrong_value() {
    let pod = make_pod(
        Some("Running"),
        Some("10.0.0.1"),
        Some("True"),
        Some(vec![("app", "other")]),
    );
    let pairs = parse_label_selector("app=worker");
    assert!(!pod_matches_selector(&pod, &pairs));
}

#[test]
fn pod_matches_selector_empty_selector() {
    let pod = make_pod(Some("Running"), Some("10.0.0.1"), Some("True"), None);
    assert!(pod_matches_selector(&pod, &[]));
}

#[test]
fn chosen_pods_are_ready_and_selected() {
    let worker = Some(vec![("app", "worker")]);
    let pods = vec![
        make_pod(Some("Running"), Some("10.0.0.1"), Some("True"), worker.clone()),
        make_pod(Some("Pending"), Some("10.0.0.2"), Some("True"), worker.clone()),
        make_pod(Some("Running"), Some("10.0.0.3"), Some("True"), Some(vec![("app", "web")])),
        make_pod(Some("Running"), Some("10.0.0.4"), Some("True"), worker),
    ];
    assert_eq!(choose_pods(&pods, "app=worker"), vec![0, 3]);
    assert_eq!(choose_pods(&pods, ""), vec![0, 2, 3]);
}

#[test]
fn only_the_first_task_starts_a_reflector() {
    let mut cache = PodCache::new();
    assert_eq!(cache.ensure_namespace("a"), EnsureStep::Start);
    assert_eq!(cache.ensure_namespace("a"), EnsureStep::Wait);
    assert_eq!(cache.ensure_namespace("b"), EnsureStep::Start);
    assert_eq!(cache.wait_step("a", false), EnsureStep::Wait);
    assert_eq!(cache.sync_finished("a", SyncOutcome::Synced), SyncStep::Publish);
    assert_eq!(cache.wait_step("a", false), EnsureStep::Ready);
    assert_eq!(cache.wait_step("a", true), EnsureStep::GiveUp);
    assert_eq!(cache.ensure_namespace("a"), EnsureStep::Ready);
    assert_eq!(cache.ensure_namespace("b"), EnsureStep::Wait);
}

#[test]
fn a_reflector_that_fails_can_be_started_again() {
    let mut cache = PodCache::new();
    assert_eq!(cache.ensure_namespace("a"), EnsureStep::Start);
    assert_eq!(cache.sync_finished("a", SyncOutcome::TimedOut), SyncStep::Abort);
    assert!(!cache.is_synced("a"));
    assert_eq!(cache.ensure_namespace("a"), EnsureStep::Start);
    assert_eq!(cache.sync_finished("a", SyncOutcome::WriterDropped), SyncStep::Abort);
    assert_eq!(cache.ensure_namespace("a"), EnsureStep::Start);
    cache.sync_finished("a", SyncOutcome::Synced);
    assert!(cache.is_synced("a"));
    cache.stream_ended("a");
    assert!(!cache.is_synced("a"));
    assert_eq!(cache.ensure_namespace("a"), EnsureStep::Start);
}

#[test]
fn unknown_pods_are_an_error() {
    let mut cache = PodCache::new();
    let pods = vec![make_pod(Some("Running"), Some("10.0.0.1"), Some("True"), None)];
    assert_eq!(
        cache.get_ready_pods("prod", &pods, "").unwrap_err(),
        "Pod reflector for namespace 'prod' is not ready; will retry next scrape"
    );
    cache.ensure_namespace("prod");
    cache.sync_finished("prod", SyncOutcome::Synced);
    assert_eq!(cache.get_ready_pods("prod", &pods, "").unwrap(), vec![0]);
}
