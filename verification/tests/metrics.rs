use external_pod_autoscaler::apis::externalpodautoscaler::AggregationType;
use external_pod_autoscaler::k8s::Lease;
use external_pod_autoscaler::membership::manager::MembershipManager;
use external_pod_autoscaler::membership::ownership::EpaOwnership;
use external_pod_autoscaler::store::ops::MetricsStore;
use external_pod_autoscaler::store::types::{
    LabeledSample, MetricConfig, MetricType, SampleKey,
};
use external_pod_autoscaler::store::window::MetricWindow;
use external_pod_autoscaler::webhook::metrics::aggregation::{
    aggregate_metric, aggregate_samples, middle_places, PodPlan, MAX_RATE,
};
use external_pod_autoscaler::webhook::metrics::handlers::{
    after_route, api_resource_list, build_external_metric_name, choose_route, forward_url,
    forwarded, get_external_metric, hold_value, local_step, parse_external_metric_name, respond,
    route_label, ApiError, LocalStep, MetricRequest, Reply, Route,
};
use external_pod_autoscaler::webhook::types::ExternalMetricValueList;

const SECOND: u64 = 1_000_000_000;
const NOW: u64 = 1000 * SECOND;

// --- Names ---

#[test]
fn test_parse_external_metric_name() {
    let (epa_name, epa_namespace, metric_name) =
        parse_external_metric_name("production", "queue-worker-scaler-production-queue_depth")
            .unwrap();

    assert_eq!(epa_name, "queue-worker-scaler");
    assert_eq!(epa_namespace, "production");
    assert_eq!(metric_name, "queue_depth");
}

#[test]
fn test_parse_external_metric_name_with_underscores() {
    let (epa_name, epa_namespace, metric_name) =
        parse_external_metric_name("staging", "api-scaler-staging-http_requests_total").unwrap();

    assert_eq!(epa_name, "api-scaler");
    assert_eq!(epa_namespace, "staging");
    assert_eq!(metric_name, "http_requests_total");
}

#[test]
fn test_parse_external_metric_name_hyphenated_namespace() {
    // This was the critical bug: hyphenated namespaces like "my-namespace"
    let (epa_name, epa_namespace, metric_name) =
        parse_external_metric_name("my-namespace", "queue-scaler-my-namespace-queue_depth")
            .unwrap();

    assert_eq!(epa_name, "queue-scaler");
    assert_eq!(epa_namespace, "my-namespace");
    assert_eq!(metric_name, "queue_depth");
}

#[test]
fn test_parse_external_metric_name_complex_hyphenated_namespace() {
    // Multiple hyphens in both EPA name and namespace
    let (epa_name, epa_namespace, metric_name) = parse_external_metric_name(
        "kube-system",
        "my-queue-worker-scaler-kube-system-http_requests_total",
    )
    .unwrap();

    assert_eq!(epa_name, "my-queue-worker-scaler");
    assert_eq!(epa_namespace, "kube-system");
    assert_eq!(metric_name, "http_requests_total");
}

#[test]
fn test_parse_external_metric_name_single_word_metric() {
    let (epa_name, epa_namespace, metric_name) =
        parse_external_metric_name("default", "scaler-default-requests").unwrap();

    assert_eq!(epa_name, "scaler");
    assert_eq!(epa_namespace, "default");
    assert_eq!(metric_name, "requests");
}

#[test]
fn test_parse_external_metric_name_no_hyphens() {
    let result = parse_external_metric_name("default", "nohyphens");
    assert!(result.is_err());
}

#[test]
fn test_parse_external_metric_name_wrong_namespace() {
    // Namespace in URL doesn't match what's in the metric name
    let result = parse_external_metric_name("other-ns", "scaler-production-queue_depth");
    assert!(result.is_err());
}

#[test]
fn names_without_resource_or_metric_are_bad_requests() {
    for name in ["-default-requests", "scaler-default-", "default-requests"] {
        match parse_external_metric_name("default", name) {
            Err(ApiError::BadRequest(m)) => {
                assert_eq!(m, format!("Invalid external metric name format: {}", name))
            }
            other => panic!("{:?}", other),
        }
    }
}

#[test]
fn built_names_are_read_again() {
    let name = build_external_metric_name("a-default", "default", "m_x");
    assert_eq!(name, "a-default-default-m_x");
    let (epa, namespace, metric) = parse_external_metric_name("default", &name).unwrap();
    assert_eq!((epa.as_str(), namespace.as_str(), metric.as_str()), ("a-default", "default", "m_x"));
}

#[test]
fn api_errors() {
    assert_eq!(ApiError::NotFound.status_code(), 404);
    assert_eq!(ApiError::NotFound.message(), "Metric not found");
    assert_eq!(ApiError::BadRequest("a".to_string()).status_code(), 400);
    assert_eq!(ApiError::InternalError("b".to_string()).status_code(), 500);
    assert_eq!(ApiError::MetricUnavailable("c".to_string()).status_code(), 422);
    assert_eq!(ApiError::MetricUnavailable("c".to_string()).message(), "c");
}

#[test]
fn discovery_offers_any_metric() {
    let list = api_resource_list();
    assert_eq!(list.kind, "APIResourceList");
    assert_eq!(list.group_version, "external.metrics.k8s.io/v1beta1");
    assert_eq!(list.resources.len(), 1);
    assert_eq!(list.resources[0].name, "*");
    assert_eq!(list.resources[0].verbs, vec!["get".to_string()]);
}

// --- Routes ---

fn text(s: &str) -> Option<String> {
    Some(s.to_string())
}

#[test]
fn requests_are_routed() {
    assert!(matches!(choose_route(true, text("b"), text("b"), "a"), Route::Local));
    match choose_route(false, text("b"), text("c"), "a") {
        Route::Forward { target, draining } => assert_eq!((target.as_str(), draining), ("b", false)),
        other => panic!("{:?}", other),
    }
    match choose_route(false, text("a"), text("c"), "a") {
        Route::Forward { target, draining } => assert_eq!((target.as_str(), draining), ("c", true)),
        other => panic!("{:?}", other),
    }
    assert!(matches!(choose_route(false, text("a"), text("a"), "a"), Route::NoPredecessor));
    assert!(matches!(choose_route(false, text("a"), None, "a"), Route::NoPredecessor));
    assert!(matches!(choose_route(false, None, None, "a"), Route::NoReplicas));
}

fn manager(id: &str) -> MembershipManager {
    MembershipManager::new(
        id.to_string(),
        "10.0.0.1".to_string(),
        "pod".to_string(),
        "ns".to_string(),
        8443,
    )
}

#[test]
fn a_serving_replica_answers_itself() {
    let mut membership = manager("r");
    let leases: Vec<Lease> = vec![membership.lease(0)];
    membership.update_active_replicas(&leases, 0);
    let mut ownership = EpaOwnership::new();
    ownership.refresh_ownership(&membership, "default", "scaler", SECOND as u128, NOW);
    let (request, route) =
        get_external_metric(&ownership, &membership, "default", "scaler-default-m", NOW).unwrap();
    assert_eq!(request.epa_name, "scaler");
    assert_eq!(request.namespace, "default");
    assert_eq!(request.metric, "m");
    assert_eq!(request.external_name, "scaler-default-m");
    assert!(matches!(route, Route::Local));
    assert!(matches!(
        get_external_metric(&ownership, &membership, "default", "scaler", NOW),
        Err(ApiError::BadRequest(_))
    ));
}

#[test]
fn other_replicas_forward_to_the_owner() {
    let leases: Vec<Lease> = vec![manager("one").lease(0)];
    let mut membership = manager("two");
    membership.update_active_replicas(&leases, 0);
    let ownership = EpaOwnership::new();
    let (request, route) =
        get_external_metric(&ownership, &membership, "default", "scaler-default-m", NOW).unwrap();
    match route {
        Route::Forward { target, draining } => {
            assert_eq!(target, "one");
            assert!(!draining);
        }
        other => panic!("{:?}", other),
    }
    assert_eq!(
        forward_url("10.0.0.1:8443", &request),
        "https://10.0.0.1:8443/apis/external.metrics.k8s.io/v1beta1/namespaces/default/scaler-default-m"
    );
    membership.update_active_replicas(&vec![], 0);
    let (_, route) =
        get_external_metric(&ownership, &membership, "default", "scaler-default-m", NOW).unwrap();
    assert!(matches!(route, Route::NoReplicas));
}

#[test]
fn replies_count_only_where_they_succeed() {
    let answered = |status: u16, list: Option<ExternalMetricValueList>| Reply::Answered {
        status,
        list,
    };
    let list = ExternalMetricValueList::empty;
    let (got, label) = forwarded(answered(200, Some(list())), false);
    assert!(got.is_some());
    assert_eq!(label, "forwarded");
    assert_eq!(forwarded(answered(200, Some(list())), true).1, "forwarded_to_draining");
    let (got, label) = forwarded(answered(500, Some(list())), false);
    assert!(got.is_none());
    assert_eq!(label, "forward_failed");
    assert_eq!(forwarded(answered(200, None), false).1, "forward_failed");
    assert_eq!(forwarded(Reply::Failed, false).1, "forward_failed");
    assert_eq!(forwarded(Reply::Unreachable, true).1, "owner_down");
}

#[test]
fn what_is_not_answered_elsewhere_falls_back() {
    let list = ExternalMetricValueList::empty;
    let answered = |status: u16| Some(Reply::Answered { status, list: Some(list()) });
    let forward = |draining: bool| Route::Forward { target: "r2".to_string(), draining };

    for draining in [false, true] {
        let (got, failed) = after_route(&forward(draining), answered(200));
        assert!(got.is_some() && !failed);
        for reply in [answered(503), Some(Reply::Failed), Some(Reply::Unreachable), None] {
            let (got, failed) = after_route(&forward(draining), reply);
            assert!(got.is_none() && failed);
        }
    }
    for route in [Route::NoReplicas, Route::NoPredecessor] {
        let (got, failed) = after_route(&route, None);
        assert!(got.is_none() && failed);
    }
    let (got, failed) = after_route(&Route::Local, None);
    assert!(got.is_none() && !failed);

    assert_eq!(route_label(&forward(true), &answered(200)), Some("forwarded_to_draining"));
    assert_eq!(route_label(&forward(false), &answered(200)), Some("forwarded"));
    assert_eq!(route_label(&forward(false), &Some(Reply::Unreachable)), Some("owner_down"));
    assert_eq!(route_label(&Route::NoReplicas, &None), Some("no_replicas"));
    assert_eq!(route_label(&Route::NoPredecessor, &None), None);
    assert_eq!(route_label(&Route::Local, &None), None);
}

// --- Answers from the store ---

fn request() -> MetricRequest {
    MetricRequest {
        epa_name: "scaler".to_string(),
        namespace: "default".to_string(),
        metric: "m".to_string(),
        external_name: "scaler-default-m".to_string(),
    }
}

#[test]
fn without_windows_the_list_is_empty() {
    let store = MetricsStore::new();
    for forward_failed in [false, true] {
        match local_step(&store, &request(), forward_failed, NOW) {
            LocalStep::Empty(list) => {
                assert_eq!(list.api_version, "external.metrics.k8s.io/v1beta1");
                assert_eq!(list.kind, "ExternalMetricValueList");
                assert!(list.items.is_empty());
            }
            other => panic!("{:?}", other),
        }
    }
}

#[test]
fn a_held_value_is_used_again_for_a_while() {
    let mut store = MetricsStore::new();
    let r = request();
    hold_value(&mut store, &r, 42.5f64.to_bits(), NOW);
    match local_step(&store, &r, false, NOW + 9 * SECOND) {
        LocalStep::Cached(v) => assert_eq!(f64::from_bits(v), 42.5),
        other => panic!("{:?}", other),
    }
    // After a forward failed, windows are needed.
    assert!(matches!(local_step(&store, &r, true, NOW), LocalStep::Empty(_)));
    assert!(matches!(local_step(&store, &r, false, NOW + 10 * SECOND), LocalStep::Empty(_)));
}

#[test]
fn windows_are_aggregated_as_configured() {
    let mut store = MetricsStore::new();
    let key = SampleKey::new(
        "default".to_string(),
        "scaler".to_string(),
        "m".to_string(),
        "pod-1".to_string(),
    );
    store.push_sample(key, sample("7", MetricType::Gauge, NOW), 3);
    let config = MetricConfig::with_period(AggregationType::Max, 5 * SECOND as u128);
    store.set_metric_config("default", "scaler", "m", config);
    for forward_failed in [false, true] {
        match local_step(&store, &request(), forward_failed, NOW) {
            LocalStep::Aggregate { windows, config } => {
                assert_eq!(windows.len(), 1);
                assert_eq!(windows[0].0, "pod-1");
                assert_eq!(config.aggregation_type, AggregationType::Max);
                assert_eq!(config.evaluation_period, 5 * SECOND as u128);
            }
            other => panic!("{:?}", other),
        }
    }
}

#[test]
fn answers_hold_one_value() {
    let list = respond(&request(), -12, 77);
    assert_eq!(list.items.len(), 1);
    assert_eq!(list.items[0].metric_name, "scaler-default-m");
    assert_eq!(list.items[0].value, "-12");
    assert_eq!(list.items[0].timestamp, 77);
    assert!(list.items[0].metric_labels.is_empty());
    assert_eq!(respond(&request(), i64::MIN, 0).items[0].value, "-9223372036854775808");
}

// --- Aggregation ---

fn sample(value: &str, metric_type: MetricType, scraped_at: u64) -> LabeledSample {
    LabeledSample { value: value.to_string(), scraped_at, success: true, metric_type }
}

fn number(text: &str) -> f64 {
    text.parse().unwrap()
}

fn numbers(values: &[String]) -> Vec<f64> {
    values.iter().map(|v| number(v)).collect()
}

/// The value that a plan comes to.
fn value_of(plan: &PodPlan) -> f64 {
    let cap = MAX_RATE as f64;
    match plan {
        PodPlan::Value(v) => number(v),
        PodPlan::Capped(v) => number(v).min(cap),
        PodPlan::Zero => 0.0,
        PodPlan::Rate { first, last, elapsed } => {
            let seconds = *elapsed as f64 / 1e9;
            let delta = number(last) - number(first);
            let rate = if delta < 0.0 { number(last) / seconds } else { delta / seconds };
            rate.min(cap)
        }
        PodPlan::Mean(values) => {
            let values = numbers(values);
            values.iter().sum::<f64>() / values.len() as f64
        }
        PodPlan::Largest(values) => {
            numbers(values).into_iter().fold(f64::NEG_INFINITY, f64::max)
        }
        PodPlan::Smallest(values) => numbers(values).into_iter().fold(f64::INFINITY, f64::min),
        PodPlan::Middle(values) => {
            let mut values = numbers(values);
            values.sort_by(|a, b| a.partial_cmp(b).unwrap());
            let (a, b) = middle_places(values.len());
            (values[a] + values[b]) / 2.0
        }
    }
}

fn aggregated(values: &[&str], how: AggregationType) -> f64 {
    let samples: Vec<LabeledSample> =
        values.iter().map(|v| sample(v, MetricType::Gauge, NOW)).collect();
    let refs: Vec<&LabeledSample> = samples.iter().collect();
    value_of(&aggregate_samples(&refs, &how))
}

#[test]
fn test_aggregate_avg() {
    let result = aggregated(&["10.0", "20.0", "30.0"], AggregationType::Avg);
    assert_eq!(result, 20.0);
}

#[test]
fn test_aggregate_max() {
    let result = aggregated(&["10.0", "30.0", "20.0"], AggregationType::Max);
    assert_eq!(result, 30.0);
}

#[test]
fn test_aggregate_min() {
    let result = aggregated(&["10.0", "30.0", "20.0"], AggregationType::Min);
    assert_eq!(result, 10.0);
}

#[test]
fn test_aggregate_median_odd() {
    let result = aggregated(&["10.0", "20.0", "30.0"], AggregationType::Median);
    assert_eq!(result, 20.0);
}

#[test]
fn test_aggregate_median_even() {
    let result = aggregated(&["10.0", "20.0", "30.0", "40.0"], AggregationType::Median);
    assert_eq!(result, 25.0);
}

#[test]
fn test_aggregate_last() {
    let result = aggregated(&["10.0", "20.0", "30.0"], AggregationType::Last);
    assert_eq!(result, 30.0);
}

fn make_window(samples: Vec<LabeledSample>) -> MetricWindow {
    let mut window = MetricWindow::new(10);
    for s in samples {
        window.push(s);
    }
    window
}

fn metric(windows: Vec<MetricWindow>) -> (f64, usize) {
    let named: Vec<(String, MetricWindow)> = windows
        .into_iter()
        .enumerate()
        .map(|(i, w)| (format!("pod-{}", i + 1), w))
        .collect();
    let plans = aggregate_metric(&named, &AggregationType::Avg, 60 * SECOND as u128, NOW);
    (plans.iter().map(value_of).sum(), plans.len())
}

fn gauges(values: &[&str]) -> Vec<LabeledSample> {
    values.iter().map(|v| sample(v, MetricType::Gauge, NOW)).collect()
}

// Single pod gauge window — per-pod avg aggregated, cross-pod sum (same value).
#[test]
fn aggregate_metric_single_pod_gauge() {
    let (result, pod_count) = metric(vec![make_window(gauges(&["10.0", "20.0", "30.0"]))]);
    assert_eq!(result, 20.0, "single pod avg of [10,20,30] should be 20");
    assert_eq!(pod_count, 1);
}

// Three pods — cross-pod sum of per-pod averages.
#[test]
fn aggregate_metric_multi_pod_sum() {
    let (result, pod_count) = metric(vec![
        make_window(gauges(&["10.0", "20.0"])),
        make_window(gauges(&["30.0", "40.0"])),
        make_window(gauges(&["50.0"])),
    ]);
    // pod-1: avg(10,20)=15, pod-2: avg(30,40)=35, pod-3: avg(50)=50
    // cross-pod sum: 15+35+50 = 100
    assert_eq!(result, 100.0);
    assert_eq!(pod_count, 3);
}

// Mix of success=true/false — only successful samples should be aggregated.
#[test]
fn aggregate_metric_filters_failed_samples() {
    let mut samples = gauges(&["10.0", "999.0", "30.0"]);
    samples[1].success = false;
    let (result, pod_count) = metric(vec![make_window(samples)]);
    // Only successful: avg(10, 30) = 20
    assert_eq!(result, 20.0);
    assert_eq!(pod_count, 1);
}

// No windows — should return 0.
#[test]
fn aggregate_metric_empty_windows_returns_zero() {
    let (result, pod_count) = metric(vec![]);
    assert_eq!(result, 0.0);
    assert_eq!(pod_count, 0);
}

// Counter rate: two samples at different times, verify rate calculation.
#[test]
fn aggregate_metric_counter_rate() {
    let (result, pod_count) = metric(vec![make_window(vec![
        sample("100.0", MetricType::Counter, NOW - 10 * SECOND),
        sample("200.0", MetricType::Counter, NOW),
    ])]);
    assert_eq!(pod_count, 1);
    // rate = (200 - 100) / 10s = 10.0/s
    assert!(
        (result - 10.0).abs() < 0.1,
        "counter rate should be ~10.0/s, got {}",
        result
    );
}

// Counter reset: value decreases, rate should use last.value/time_diff.
#[test]
fn aggregate_metric_counter_reset() {
    let (result, pod_count) = metric(vec![make_window(vec![
        sample("1000.0", MetricType::Counter, NOW - 10 * SECOND),
        sample("50.0", MetricType::Counter, NOW),
    ])]);
    assert_eq!(pod_count, 1);
    // Counter reset: rate = last.value / time_diff = 50 / 10 = 5.0
    assert!(
        (result - 5.0).abs() < 0.1,
        "counter reset rate should be ~5.0/s, got {}",
        result
    );
}

// Single counter sample — returns capped value.
#[test]
fn aggregate_metric_single_counter_sample() {
    let (result, pod_count) =
        metric(vec![make_window(vec![sample("42.0", MetricType::Counter, NOW)])]);
    assert_eq!(pod_count, 1);
    // Single sample: returns value capped at MAX_RATE
    assert_eq!(result, 42.0);
}

// Samples outside evaluation period should be excluded.
#[test]
fn aggregate_metric_evaluation_period_filters() {
    // Old sample (120s ago) should be excluded with 60s evaluation period
    let (result, pod_count) = metric(vec![make_window(vec![
        sample("999.0", MetricType::Gauge, NOW - 120 * SECOND),
        sample("10.0", MetricType::Gauge, NOW - 5 * SECOND),
    ])]);
    // Only the recent sample (10.0) should be included
    assert_eq!(result, 10.0);
    assert_eq!(pod_count, 1);
}

// Two pods but only one has samples in the evaluation period — contributing
// pod count should be 1, not 2.
#[test]
fn aggregate_metric_stale_pod_excluded_from_count() {
    let (result, pod_count) = metric(vec![
        make_window(gauges(&["10.0"])),
        make_window(vec![sample("999.0", MetricType::Gauge, NOW - 120 * SECOND)]),
    ]);
    assert_eq!(result, 10.0);
    assert_eq!(pod_count, 1, "only pod-1 has samples in the evaluation period");
}

#[test]
fn counters_at_one_instant_have_no_rate() {
    let (result, pod_count) = metric(vec![make_window(vec![
        sample("1", MetricType::Counter, NOW),
        sample("5", MetricType::Counter, NOW),
    ])]);
    assert_eq!(result, 0.0);
    assert_eq!(pod_count, 1);
}

#[test]
fn middle_places_of_few_values() {
    assert_eq!(middle_places(1), (0, 0));
    assert_eq!(middle_places(2), (0, 1));
    assert_eq!(middle_places(3), (1, 1));
    assert_eq!(middle_places(4), (1, 2));
}
