use external_pod_autoscaler::apis::externalpodautoscaler::{
    AggregationType, ExternalPodAutoscaler, ExternalPodAutoscalerSpec,
    LabelSelector as MetricSelector, LabelSelectorOperator, LabelSelectorRequirement as Wanted,
    MetricSpec, MetricTargetType, ScrapeConfig, TargetRef,
};
use external_pod_autoscaler::k8s::{
    LabelSelector, LabelSelectorRequirement, ObjectMeta, Pod, PodCondition, PodStatus,
};
use external_pod_autoscaler::labels::Labels;
use external_pod_autoscaler::scraper::pod_cache::parse_label_selector;
use external_pod_autoscaler::scraper::selector::{
    build_label_selector_string, get_pod_selector, matches_label_selector, target_kind,
    WorkloadKind,
};
use external_pod_autoscaler::scraper::worker::{
    is_success, plan_scrape, record_outcome, scrape_pod_static, Fetched,
};
use external_pod_autoscaler::store::ops::MetricsStore;
use external_pod_autoscaler::store::types::MetricType;

fn make_target_ref(kind: &str, name: &str) -> TargetRef {
    TargetRef {
        api_version: "apps/v1".to_string(),
        kind: kind.to_string(),
        name: name.to_string(),
    }
}

fn labels(pairs: &[(&str, &str)]) -> Labels {
    let mut r = Labels::new();
    for (k, v) in pairs {
        r.insert(k.to_string(), v.to_string());
    }
    r
}

fn workload_selector(app: &str) -> Option<LabelSelector> {
    Some(LabelSelector { match_labels: Some(labels(&[("app", app)])), match_expressions: None })
}

// Deployment with matchLabels `app=worker` — get_pod_selector should return "app=worker".
#[test]
fn get_pod_selector_deployment() {
    let kind = target_kind(&make_target_ref("Deployment", "worker")).unwrap();
    assert_eq!(kind, WorkloadKind::Deployment);
    let selector = get_pod_selector(kind, &workload_selector("worker")).unwrap();
    assert_eq!(selector, "app=worker");
}

// StatefulSet with matchLabels `app=cache` — get_pod_selector should return "app=cache".
#[test]
fn get_pod_selector_statefulset() {
    let kind = target_kind(&make_target_ref("StatefulSet", "cache")).unwrap();
    assert_eq!(kind, WorkloadKind::StatefulSet);
    let selector = get_pod_selector(kind, &workload_selector("cache")).unwrap();
    assert_eq!(selector, "app=cache");
}

// DaemonSet with matchLabels `app=agent` — get_pod_selector should return "app=agent".
#[test]
fn get_pod_selector_daemonset() {
    let kind = target_kind(&make_target_ref("DaemonSet", "agent")).unwrap();
    assert_eq!(kind, WorkloadKind::DaemonSet);
    let selector = get_pod_selector(kind, &workload_selector("agent")).unwrap();
    assert_eq!(selector, "app=agent");
}

// Unsupported kind — get_pod_selector should return an error.
#[test]
fn get_pod_selector_unsupported_kind() {
    let result = target_kind(&make_target_ref("CronJob", "my-job"));
    assert!(result.is_err(), "expected error for unsupported kind, got Ok");
    let msg = result.unwrap_err();
    assert!(
        msg.contains("Unsupported target kind"),
        "error message should mention unsupported kind, got: {msg}"
    );
}

#[test]
fn get_pod_selector_without_spec() {
    assert_eq!(
        get_pod_selector(WorkloadKind::Deployment, &None).unwrap_err(),
        "Deployment has no spec"
    );
    assert_eq!(
        get_pod_selector(WorkloadKind::DaemonSet, &None).unwrap_err(),
        "DaemonSet has no spec"
    );
}

// LabelSelector with multiple matchLabels — both pairs should appear in the output.
#[test]
fn build_label_selector_string_match_labels() {
    let selector = LabelSelector {
        match_labels: Some(labels(&[("app", "worker"), ("tier", "backend")])),
        match_expressions: None,
    };
    let result = build_label_selector_string(&selector).expect("should succeed");
    assert!(
        result.contains("app=worker"),
        "output should contain app=worker, got: {result}"
    );
    assert!(
        result.contains("tier=backend"),
        "output should contain tier=backend, got: {result}"
    );
}

fn requirement(operator: &str, values: Option<Vec<&str>>) -> LabelSelectorRequirement {
    LabelSelectorRequirement {
        key: "app".to_string(),
        operator: operator.to_string(),
        values: values.map(|vs| vs.into_iter().map(str::to_string).collect()),
    }
}

// LabelSelector with a single-value `In` matchExpression — should convert to `key=value`.
#[test]
fn build_label_selector_string_match_expressions_in() {
    let selector = LabelSelector {
        match_labels: None,
        match_expressions: Some(vec![requirement("In", Some(vec!["worker"]))]),
    };
    let result = build_label_selector_string(&selector).expect("should succeed");
    assert_eq!(result, "app=worker");
}

// LabelSelector with an unsupported operator — should return an error.
#[test]
fn build_label_selector_string_unsupported_operator() {
    let selector = LabelSelector {
        match_labels: None,
        match_expressions: Some(vec![requirement("NotIn", Some(vec!["worker"]))]),
    };
    let result = build_label_selector_string(&selector);
    assert!(result.is_err(), "expected error for unsupported operator, got Ok");
    let msg = result.unwrap_err();
    assert!(
        msg.contains("not supported"),
        "error should mention unsupported operator, got: {msg}"
    );
}

// Empty LabelSelector with no matchLabels and no matchExpressions — should return an error.
#[test]
fn build_label_selector_string_empty() {
    let selector = LabelSelector { match_labels: None, match_expressions: None };
    let result = build_label_selector_string(&selector);
    assert!(result.is_err(), "expected error for empty selector, got Ok");
    let msg = result.unwrap_err();
    assert!(
        msg.contains("no usable label constraints"),
        "error should mention no usable label constraints, got: {msg}"
    );
}

#[test]
fn build_label_selector_string_in_needs_one_value() {
    for values in [None, Some(vec![]), Some(vec!["a", "b"])] {
        let selector = LabelSelector {
            match_labels: Some(labels(&[("x", "y")])),
            match_expressions: Some(vec![requirement("In", values)]),
        };
        assert_eq!(
            build_label_selector_string(&selector).unwrap_err(),
            "matchExpressions 'In' on key 'app' requires exactly one value"
        );
    }
}

#[test]
fn selector_is_read_as_it_was_written() {
    let selector = LabelSelector {
        match_labels: Some(labels(&[("tier", "back=end"), ("app", "worker")])),
        match_expressions: Some(vec![requirement("In", Some(vec!["other"]))]),
    };
    let text = build_label_selector_string(&selector).unwrap();
    assert_eq!(text, "app=worker,tier=back=end,app=other");
    assert_eq!(
        parse_label_selector(&text),
        vec![
            ("app".to_string(), "worker".to_string()),
            ("tier".to_string(), "back=end".to_string()),
            ("app".to_string(), "other".to_string()),
        ]
    );
}

#[test]
fn metric_selectors() {
    let have = labels(&[("priority", "high"), ("zone", "a")]);
    let with = |operator: LabelSelectorOperator, key: &str, values: Option<Vec<&str>>| {
        MetricSelector {
            match_labels: None,
            match_expressions: Some(vec![Wanted {
                key: key.to_string(),
                operator,
                values: values.map(|vs| vs.into_iter().map(str::to_string).collect()),
            }]),
        }
    };
    let m = |s: &MetricSelector| matches_label_selector(&have, s);
    assert!(m(&with(LabelSelectorOperator::In, "zone", Some(vec!["a", "b"]))));
    assert!(!m(&with(LabelSelectorOperator::In, "zone", Some(vec!["b"]))));
    assert!(!m(&with(LabelSelectorOperator::In, "gone", Some(vec!["b"]))));
    assert!(m(&with(LabelSelectorOperator::In, "gone", None)));
    assert!(!m(&with(LabelSelectorOperator::NotIn, "zone", Some(vec!["a"]))));
    assert!(m(&with(LabelSelectorOperator::NotIn, "gone", Some(vec!["a"]))));
    assert!(m(&with(LabelSelectorOperator::Exists, "zone", None)));
    assert!(!m(&with(LabelSelectorOperator::Exists, "gone", None)));
    assert!(m(&with(LabelSelectorOperator::DoesNotExist, "gone", None)));
    assert!(!m(&with(LabelSelectorOperator::DoesNotExist, "zone", None)));
}

fn metric_spec(name: &str, target: &str) -> MetricSpec {
    MetricSpec {
        metric_name: name.to_string(),
        type_: MetricTargetType::AverageValue,
        target_value: target.to_string(),
        aggregation_type: None,
        evaluation_period: None,
        label_selector: None,
    }
}

fn make_scrape_epa(name: &str, namespace: &str, port: u16) -> ExternalPodAutoscaler {
    let mut metadata = ObjectMeta::empty();
    metadata.name = Some(name.to_string());
    metadata.namespace = Some(namespace.to_string());
    metadata.uid = Some(format!("{}-uid", name));
    ExternalPodAutoscaler {
        metadata,
        spec: ExternalPodAutoscalerSpec {
            min_replicas: 1,
            max_replicas: 5,
            scrape: ScrapeConfig {
                port: port as i32,
                path: "/metrics".to_string(),
                interval: "15s".to_string(),
                timeout: "2s".to_string(),
                scheme: "http".to_string(),
                tls: None,
                evaluation_period: "60s".to_string(),
                aggregation_type: AggregationType::Avg,
            },
            scrape_target_ref: None,
            scale_target_ref: make_target_ref("Deployment", "worker"),
            metrics: vec![metric_spec("queue_depth", "50")],
            behavior: None,
        },
        status: None,
    }
}

fn make_scrape_pod(name: &str, namespace: &str, ip: &str) -> Pod {
    let mut metadata = ObjectMeta::empty();
    metadata.name = Some(name.to_string());
    metadata.namespace = Some(namespace.to_string());
    Pod {
        metadata,
        status: Some(PodStatus {
            phase: Some("Running".to_string()),
            pod_ip: Some(ip.to_string()),
            conditions: Some(vec![PodCondition {
                type_: "Ready".to_string(),
                status: "True".to_string(),
            }]),
        }),
    }
}

fn ok(body: &str) -> Fetched {
    Fetched::Answered {
        status: 200,
        status_text: "200 OK".to_string(),
        body: Ok(body.to_string()),
    }
}

fn number(text: &str) -> f64 {
    text.parse().unwrap()
}

// Serve a gauge metric and verify it's stored correctly.
#[test]
fn scrape_gauge_metric_stored() {
    let epa = make_scrape_epa("test-epa", "default", 9090);
    let pod = make_scrape_pod("pod-1", "default", "127.0.0.1");
    let mut store = MetricsStore::new();

    let body = "# TYPE queue_depth gauge\nqueue_depth 42\n";
    let result = scrape_pod_static(&epa, &pod, &mut store, 10, ok(body), 7);
    assert!(result.is_ok(), "scrape should succeed: {:?}", result.err());

    let windows = store.get_windows("default", "test-epa", "queue_depth");
    assert_eq!(windows.len(), 1, "should have one window for pod-1");
    assert_eq!(windows[0].0, "pod-1");

    let window = &windows[0].1;
    assert_eq!(window.samples.len(), 1);
    assert_eq!(number(&window.samples[0].value), 42.0);
    assert_eq!(window.samples[0].metric_type, MetricType::Gauge);
    assert_eq!(window.samples[0].scraped_at, 7);
    assert!(window.samples[0].success);
}

// Serve a counter metric and verify MetricType::Counter.
#[test]
fn scrape_counter_metric_stored() {
    let mut epa = make_scrape_epa("test-epa", "default", 9090);
    epa.spec.metrics = vec![metric_spec("http_requests_total", "100")];
    let pod = make_scrape_pod("pod-1", "default", "127.0.0.1");
    let mut store = MetricsStore::new();

    let body = "# TYPE http_requests_total counter\nhttp_requests_total 1234\n";
    let result = scrape_pod_static(&epa, &pod, &mut store, 10, ok(body), 0);
    assert!(result.is_ok());

    let windows = store.get_windows("default", "test-epa", "http_requests_total");
    assert_eq!(windows.len(), 1);
    let window = &windows[0].1;
    assert_eq!(number(&window.samples[0].value), 1234.0);
    assert_eq!(window.samples[0].metric_type, MetricType::Counter);
}

// Serve two metrics, both should be stored.
#[test]
fn scrape_multiple_metrics() {
    let mut epa = make_scrape_epa("test-epa", "default", 9090);
    epa.spec.metrics = vec![
        metric_spec("queue_depth", "50"),
        metric_spec("queue_errors_total", "5"),
    ];
    let pod = make_scrape_pod("pod-1", "default", "127.0.0.1");
    let mut store = MetricsStore::new();

    let body = "# TYPE queue_depth gauge\nqueue_depth 10\n# TYPE queue_errors_total counter\nqueue_errors_total 3\n";
    let result = scrape_pod_static(&epa, &pod, &mut store, 10, ok(body), 0);
    assert!(result.is_ok());

    let depth_windows = store.get_windows("default", "test-epa", "queue_depth");
    assert_eq!(depth_windows.len(), 1);

    let errors_windows = store.get_windows("default", "test-epa", "queue_errors_total");
    assert_eq!(errors_windows.len(), 1);
}

// Serve metric with labels and EPA label selector — only matching stored.
#[test]
fn scrape_with_labels_filtered() {
    let mut epa = make_scrape_epa("test-epa", "default", 9090);
    epa.spec.metrics[0].label_selector = Some(MetricSelector {
        match_labels: Some(labels(&[("priority", "high")])),
        match_expressions: None,
    });
    let pod = make_scrape_pod("pod-1", "default", "127.0.0.1");
    let mut store = MetricsStore::new();

    let body = "# TYPE queue_depth gauge\nqueue_depth{priority=\"high\"} 42\nqueue_depth{priority=\"low\"} 10\n";
    let result = scrape_pod_static(&epa, &pod, &mut store, 10, ok(body), 0);
    assert!(result.is_ok());

    let windows = store.get_windows("default", "test-epa", "queue_depth");
    assert_eq!(windows.len(), 1);
    let window = &windows[0].1;
    // Only the "high" priority label should match
    assert_eq!(window.samples.len(), 1);
    assert_eq!(number(&window.samples[0].value), 42.0);
}

// An answer that comes too late — should return an error.
#[test]
fn scrape_timeout_returns_error() {
    let mut epa = make_scrape_epa("test-epa", "default", 9090);
    epa.spec.scrape.timeout = "100ms".to_string();
    let pod = make_scrape_pod("pod-1", "default", "127.0.0.1");
    let mut store = MetricsStore::new();

    assert_eq!(plan_scrape(&epa, &pod).unwrap().timeout, 100_000_000);
    let result = scrape_pod_static(&epa, &pod, &mut store, 10, Fetched::TimedOut, 0);
    assert!(result.is_err(), "should timeout");
    assert_eq!(result.unwrap_err(), "Request timeout");
}

// A 404 — should return an error.
#[test]
fn scrape_404_returns_error() {
    let epa = make_scrape_epa("test-epa", "default", 9090);
    let pod = make_scrape_pod("pod-1", "default", "127.0.0.1");
    let mut store = MetricsStore::new();

    let fetched = Fetched::Answered {
        status: 404,
        status_text: "404 Not Found".to_string(),
        body: Ok("queue_depth 42\n".to_string()),
    };
    let result = scrape_pod_static(&epa, &pod, &mut store, 10, fetched, 0);
    let err = result.expect_err("404 response should return an error");
    assert!(
        err.contains("HTTP 404"),
        "error should mention HTTP 404, got: {err}"
    );
    assert_eq!(err, "HTTP 404 Not Found from pod pod-1");
    assert!(store.get_windows("default", "test-epa", "queue_depth").is_empty());
}

// Garbage text — parser should fail or no metrics stored.
#[test]
fn scrape_invalid_prometheus_format() {
    let epa = make_scrape_epa("test-epa", "default", 9090);
    let pod = make_scrape_pod("pod-1", "default", "127.0.0.1");
    let mut store = MetricsStore::new();

    let _ = scrape_pod_static(
        &epa,
        &pod,
        &mut store,
        10,
        ok("this is not prometheus\n{{}}\n"),
        0,
    );
    let windows = store.get_windows("default", "test-epa", "queue_depth");
    assert!(
        windows.is_empty(),
        "no windows should be created for invalid prometheus output"
    );
}

// Pod with no podIP should return an error.
#[test]
fn scrape_pod_missing_ip_returns_error() {
    let epa = make_scrape_epa("test-epa", "default", 9090);
    let mut metadata = ObjectMeta::empty();
    metadata.name = Some("no-ip-pod".to_string());
    metadata.namespace = Some("default".to_string());
    let pod = Pod { metadata, status: None };
    let mut store = MetricsStore::new();

    let result = scrape_pod_static(&epa, &pod, &mut store, 10, ok(""), 0);
    let err = result.expect_err("pod without IP should fail");
    assert!(
        err.contains("no IP"),
        "error should mention missing IP, got: {err}"
    );
}

#[test]
fn scrape_plan_and_its_errors() {
    let mut epa = make_scrape_epa("test-epa", "default", 9090);
    let mut pod = make_scrape_pod("pod-1", "prod", "10.1.2.3");
    let plan = plan_scrape(&epa, &pod).unwrap();
    assert_eq!(plan.url, "http://10.1.2.3:9090/metrics");
    assert_eq!(plan.timeout, 2_000_000_000);
    assert_eq!(plan.namespace, "prod");
    assert_eq!(plan.epa_name, "test-epa");
    assert_eq!(plan.pod_name, "pod-1");

    epa.spec.scrape.timeout = "soon".to_string();
    assert!(plan_scrape(&epa, &pod).unwrap_err().starts_with("Invalid duration 'soon': "));
    epa.metadata.name = None;
    assert_eq!(plan_scrape(&epa, &pod).unwrap_err(), "EPA missing name metadata");
    pod.metadata.namespace = None;
    assert_eq!(plan_scrape(&epa, &pod).unwrap_err(), "Pod pod-1 has no namespace");
    pod.metadata.name = None;
    pod.metadata.generate_name = Some("web-".to_string());
    assert_eq!(plan_scrape(&epa, &pod).unwrap_err(), "Pod web- has no namespace");
}

#[test]
fn failed_fetches_are_reported() {
    let epa = make_scrape_epa("test-epa", "default", 9090);
    let pod = make_scrape_pod("pod-1", "default", "127.0.0.1");
    let mut store = MetricsStore::new();
    let refused = Fetched::HttpError("connection refused".to_string());
    assert_eq!(
        scrape_pod_static(&epa, &pod, &mut store, 10, refused, 0).unwrap_err(),
        "HTTP error: connection refused"
    );
    let cut = Fetched::Answered {
        status: 200,
        status_text: "200 OK".to_string(),
        body: Err("reset".to_string()),
    };
    assert_eq!(
        scrape_pod_static(&epa, &pod, &mut store, 10, cut, 0).unwrap_err(),
        "Failed to read response: reset"
    );
    assert!(is_success(200) && is_success(299) && !is_success(199) && !is_success(300));
}

#[test]
fn scrapes_are_counted_under_the_resource() {
    let mut epa = make_scrape_epa("test-epa", "default", 9090);
    let mut store = MetricsStore::new();
    record_outcome(&mut store, &epa, true);
    record_outcome(&mut store, &epa, true);
    record_outcome(&mut store, &epa, false);
    let stats = store.get_scrape_stats("default", "test-epa");
    assert_eq!(stats.snapshot_and_reset(&mut store), (2, 1));
    epa.metadata.name = None;
    epa.metadata.namespace = None;
    record_outcome(&mut store, &epa, false);
    let stats = store.get_scrape_stats("<no-namespace>", "<unnamed>");
    assert_eq!(stats.snapshot_and_reset(&mut store), (0, 1));
}
