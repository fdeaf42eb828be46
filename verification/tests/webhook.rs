use external_pod_autoscaler::apis::externalpodautoscaler::{
    AggregationType, ExternalPodAutoscaler, ExternalPodAutoscalerSpec, MetricSpec,
    MetricTargetType, ScrapeConfig, TargetRef,
};
use external_pod_autoscaler::k8s::ObjectMeta;
use external_pod_autoscaler::webhook::admission::{
    default_epa, mutate_epa, receive, review_epa, validate_epa, AdmissionError,
    AdmissionRequest, AdmissionResponse, AdmissionReview, GroupVersionKind, GroupVersionResource, ReviewStep,
};
use external_pod_autoscaler::webhook::defaults::apply_defaults;
use external_pod_autoscaler::webhook::patch::{encode_patch, generate_patch};
use external_pod_autoscaler::webhook::server::{
    endpoints, listen_address, webhooks_enabled, Endpoint,
};
use external_pod_autoscaler::webhook::validation::{
    can_validate, validate_duration, validate_epa_spec, validate_scrape_path,
};

fn make_admission_review(uid: &str, object: Option<String>) -> AdmissionReview {
    AdmissionReview {
        api_version: "admission.k8s.io/v1".to_string(),
        kind: "AdmissionReview".to_string(),
        request: Some(AdmissionRequest {
            uid: uid.to_string(),
            kind: GroupVersionKind {
                group: "ctx.sh".to_string(),
                version: "v1beta1".to_string(),
                kind: "ExternalPodAutoscaler".to_string(),
            },
            resource: GroupVersionResource {
                group: "ctx.sh".to_string(),
                version: "v1beta1".to_string(),
                resource: "externalpodautoscalers".to_string(),
            },
            operation: "CREATE".to_string(),
            object,
            old_object: None,
        }),
        response: None,
    }
}

fn target(api_version: &str) -> TargetRef {
    TargetRef {
        api_version: api_version.to_string(),
        kind: "Deployment".to_string(),
        name: "worker".to_string(),
    }
}

fn valid_epa() -> ExternalPodAutoscaler {
    let mut metadata = ObjectMeta::empty();
    metadata.name = Some("test-epa".to_string());
    metadata.namespace = Some("default".to_string());
    ExternalPodAutoscaler {
        metadata,
        spec: ExternalPodAutoscalerSpec {
            min_replicas: 1,
            max_replicas: 5,
            scrape: ScrapeConfig {
                port: 8080,
                path: "/metrics".to_string(),
                interval: "15s".to_string(),
                timeout: "1s".to_string(),
                scheme: "http".to_string(),
                tls: None,
                evaluation_period: "60s".to_string(),
                aggregation_type: AggregationType::Avg,
            },
            scrape_target_ref: None,
            scale_target_ref: target("apps/v1"),
            metrics: vec![MetricSpec {
                metric_name: "queue_depth".to_string(),
                type_: MetricTargetType::AverageValue,
                target_value: "50".to_string(),
                aggregation_type: None,
                evaluation_period: None,
                label_selector: None,
            }],
            behavior: None,
        },
        status: None,
    }
}

/// What of a resource is defaulted, as JSON text.
fn json(epa: &ExternalPodAutoscaler) -> String {
    let s = &epa.spec;
    let quoted = |t: &str| format!("\"{}\"", t);
    let reference = |t: &TargetRef| {
        format!(
            "{{\"apiVersion\":{},\"kind\":{},\"name\":{}}}",
            quoted(&t.api_version),
            quoted(&t.kind),
            quoted(&t.name)
        )
    };
    let scrape_target = match &s.scrape_target_ref {
        Some(t) => format!(",\"scrapeTargetRef\":{}", reference(t)),
        None => String::new(),
    };
    format!(
        "{{\"spec\":{{\"minReplicas\":{},\"scrape\":{{\"port\":{},\"path\":{},\"interval\":{},\"timeout\":{},\"scheme\":{},\"evaluationPeriod\":{}}},\"scaleTargetRef\":{}{}}}}}",
        s.min_replicas,
        s.scrape.port,
        quoted(&s.scrape.path),
        quoted(&s.scrape.interval),
        quoted(&s.scrape.timeout),
        quoted(&s.scrape.scheme),
        quoted(&s.scrape.evaluation_period),
        reference(&s.scale_target_ref),
        scrape_target
    )
}

fn response(review: AdmissionReview) -> AdmissionResponse {
    assert_eq!(review.api_version, "admission.k8s.io/v1");
    assert_eq!(review.kind, "AdmissionReview");
    assert!(review.request.is_none());
    review.response.expect("should have response")
}

fn post_validate(uid: &str, epa: ExternalPodAutoscaler) -> AdmissionResponse {
    let object = json(&epa);
    match receive(make_admission_review(uid, Some(object))).unwrap() {
        ReviewStep::Read { uid, .. } => {
            assert!(can_validate(&epa));
            response(validate_epa(uid, Ok(epa)).unwrap())
        }
        ReviewStep::Answer(_) => panic!("the object should be read"),
    }
}

fn post_mutate(uid: &str, epa: ExternalPodAutoscaler) -> AdmissionResponse {
    let object = json(&epa);
    match receive(make_admission_review(uid, Some(object))).unwrap() {
        ReviewStep::Read { uid, object } => {
            let defaulted = default_epa(Ok(epa)).unwrap();
            response(mutate_epa(uid, &object, Ok(json(&defaulted))).unwrap())
        }
        ReviewStep::Answer(_) => panic!("the object should be read"),
    }
}

// --- Validation tests ---

#[test]
fn validate_valid_epa_returns_allowed() {
    let resp = post_validate("test-uid-1", valid_epa());
    assert_eq!(resp.uid, "test-uid-1");
    assert!(resp.allowed, "valid EPA should be allowed");
    assert!(resp.status.is_none());
}

#[test]
fn validate_invalid_min_replicas_denied() {
    let mut epa = valid_epa();
    epa.spec.min_replicas = 0;
    let resp = post_validate("test-uid-2", epa);
    assert!(!resp.allowed, "minReplicas=0 should be denied");
    let status = resp.status.unwrap();
    assert_eq!(status.code, 400);
    assert!(
        status.message.contains("minReplicas"),
        "message should mention minReplicas"
    );
}

#[test]
fn validate_invalid_max_replicas_denied() {
    let mut epa = valid_epa();
    epa.spec.min_replicas = 10;
    epa.spec.max_replicas = 5;
    let resp = post_validate("test-uid-3", epa);
    assert!(!resp.allowed, "maxReplicas < minReplicas should be denied");
    let message = resp.status.unwrap().message;
    assert!(message.contains("maxReplicas"), "message should mention maxReplicas");
    assert_eq!(
        message,
        "maxReplicas (5) must be greater than or equal to minReplicas (10)"
    );
}

#[test]
fn validate_empty_metrics_denied() {
    let mut epa = valid_epa();
    epa.spec.metrics = vec![];
    let resp = post_validate("test-uid-4", epa);
    assert!(!resp.allowed, "empty metrics should be denied");
    assert!(
        resp.status.unwrap().message.contains("metric"),
        "message should mention metrics"
    );
}

#[test]
fn validate_invalid_port_denied() {
    let mut epa = valid_epa();
    epa.spec.scrape.port = 0;
    let resp = post_validate("test-uid-5", epa);
    assert!(!resp.allowed, "port=0 should be denied");
    assert!(
        resp.status.unwrap().message.contains("port"),
        "message should mention port"
    );
}

#[test]
fn validate_path_traversal_denied() {
    let mut epa = valid_epa();
    epa.spec.scrape.path = "/metrics/../etc/passwd".to_string();
    let resp = post_validate("test-uid-6", epa);
    assert!(!resp.allowed, "path traversal should be denied");
    assert!(
        resp.status.unwrap().message.contains(".."),
        "message should mention path traversal"
    );
}

#[test]
fn validate_invalid_duration_denied() {
    let mut epa = valid_epa();
    epa.spec.scrape.interval = "not-a-duration".to_string();
    let resp = post_validate("test-uid-7", epa);
    assert!(!resp.allowed, "invalid duration should be denied");
}

#[test]
fn validate_missing_request_returns_400() {
    let review = AdmissionReview {
        api_version: "admission.k8s.io/v1".to_string(),
        kind: "AdmissionReview".to_string(),
        request: None,
        response: None,
    };
    let error = receive(review).expect_err("missing request should be an error");
    assert_eq!(error.status_code(), 400, "missing request should return 400");
    assert_eq!(error.message(), "Missing request in AdmissionReview");
}

// --- Mutation tests ---

#[test]
fn mutate_applies_defaults() {
    let mut epa = valid_epa();
    epa.spec.scrape = ScrapeConfig {
        port: 0,
        path: "".to_string(),
        interval: "".to_string(),
        timeout: "".to_string(),
        scheme: "".to_string(),
        tls: None,
        evaluation_period: "".to_string(),
        aggregation_type: AggregationType::Avg,
    };
    let resp = post_mutate("mutate-uid-1", epa);
    assert!(resp.allowed, "mutation should allow the object");
    assert!(
        resp.patch.is_some(),
        "mutation should produce a patch for defaults"
    );
    assert_eq!(
        resp.patch_type.as_deref(),
        Some("JSONPatch"),
        "patch type should be JSONPatch"
    );
}

#[test]
fn mutate_sets_scrape_target_ref() {
    let resp = post_mutate("mutate-uid-2", valid_epa());
    assert!(resp.allowed);
    assert!(
        resp.patch.is_some(),
        "should produce patch to set scrapeTargetRef"
    );
}

#[test]
fn mutate_no_changes_no_patch() {
    let mut epa = valid_epa();
    epa.spec.scrape_target_ref = Some(target("apps/v1"));
    let resp = post_mutate("mutate-uid-3", epa);
    assert!(resp.allowed);
    assert!(
        resp.patch.is_none(),
        "fully specified EPA should not produce a patch"
    );
    assert!(resp.patch_type.is_none());
}

#[test]
fn mutate_missing_object_returns_allowed() {
    match receive(make_admission_review("mutate-uid-4", None)).unwrap() {
        ReviewStep::Answer(review) => {
            let resp = response(review);
            assert_eq!(resp.uid, "mutate-uid-4");
            assert!(resp.allowed, "missing object should still be allowed");
            assert!(resp.patch.is_none(), "no object means no patch");
        }
        ReviewStep::Read { .. } => panic!("there is no object to read"),
    }
}

// --- Details ---

#[test]
fn objects_that_cannot_be_read_or_written() {
    match validate_epa("u".to_string(), Err("missing field".to_string())) {
        Err(AdmissionError::BadRequest(m)) => {
            assert_eq!(m, "Failed to parse EPA object: missing field")
        }
        other => panic!("{:?}", other),
    }
    assert!(matches!(
        default_epa(Err("bad".to_string())),
        Err(AdmissionError::BadRequest(_))
    ));
    let error = mutate_epa("u".to_string(), "{}", Err("no".to_string())).unwrap_err();
    assert_eq!(error.status_code(), 500);
    assert_eq!(error.message(), "Failed to serialize EPA: no");
}

#[test]
fn patches_are_json_in_base64() {
    // [{"op":"replace","path":"/a","value":2}]
    assert_eq!(
        generate_patch("{\"a\":1}", "{\"a\":2}").as_deref(),
        Some("W3sib3AiOiJyZXBsYWNlIiwicGF0aCI6Ii9hIiwidmFsdWUiOjJ9XQ==")
    );
    assert_eq!(generate_patch("{\"a\":1,\"b\":2}", "{\"b\": 2, \"a\": 1}"), None);
    assert_eq!(generate_patch("not json", "{}"), None);
}

#[test]
fn base64_pads_with_equals_signs() {
    let encode = |t: &str| encode_patch(Some((1, t.to_string()))).unwrap();
    assert_eq!(encode(""), "");
    assert_eq!(encode("f"), "Zg==");
    assert_eq!(encode("fo"), "Zm8=");
    assert_eq!(encode("foo"), "Zm9v");
    assert_eq!(encode("foobar"), "Zm9vYmFy");
    assert_eq!(encode("\u{fb}\u{ff}?>"), "w7vDvz8+");
    assert_eq!(encode_patch(Some((0, "[]".to_string()))), None);
    assert_eq!(encode_patch(None), None);
}

#[test]
fn defaults_fill_what_is_missing_and_nothing_else() {
    let mut epa = valid_epa();
    epa.spec.min_replicas = 0;
    epa.spec.scale_target_ref.api_version = "".to_string();
    epa.spec.scrape.path = "".to_string();
    epa.spec.scrape.interval = "30s".to_string();
    apply_defaults(&mut epa);
    assert_eq!(epa.spec.min_replicas, 1);
    assert_eq!(epa.spec.max_replicas, 5);
    assert_eq!(epa.spec.scale_target_ref.api_version, "apps/v1");
    assert_eq!(epa.spec.scrape_target_ref.as_ref().unwrap().name, "worker");
    assert_eq!(epa.spec.scrape_target_ref.as_ref().unwrap().kind, "Deployment");
    assert_eq!(epa.spec.scrape_target_ref.as_ref().unwrap().api_version, "apps/v1");
    assert_eq!(epa.spec.scrape.path, "/metrics");
    assert_eq!(epa.spec.scrape.interval, "30s");
    let once = json(&epa);
    apply_defaults(&mut epa);
    assert_eq!(json(&epa), once);
    assert!(validate_epa_spec(&epa).is_ok());
}

#[test]
fn defaults_override_nothing_of_a_valid_resource() {
    let mut epa = valid_epa();
    epa.spec.min_replicas = 3;
    epa.spec.scale_target_ref.api_version = "apps/v2".to_string();
    epa.spec.scrape_target_ref = Some(target("batch/v1"));
    epa.spec.scrape.port = 9090;
    epa.spec.scrape.path = "/stats".to_string();
    epa.spec.scrape.interval = "1m30s".to_string();
    epa.spec.scrape.timeout = "5s".to_string();
    epa.spec.scrape.scheme = "https".to_string();
    epa.spec.scrape.evaluation_period = "2m".to_string();
    assert_eq!(validate_epa_spec(&epa), Ok(()));
    let given = json(&epa);
    apply_defaults(&mut epa);
    assert_eq!(json(&epa), given);
    assert_eq!(validate_epa_spec(&epa), Ok(()));
}

#[test]
fn durations_are_validated() {
    for good in [
        "15s", "100ms", "5m", "1h", " 2s ", "0s", "+3s", "1h30m", "1h 30m", "1.5s", "15d", "2min",
    ] {
        assert_eq!(validate_duration(good, "f"), Ok(()), "{}", good);
    }
    assert_eq!(validate_duration("", "f"), Err("f must not be empty".to_string()));
    assert_eq!(validate_duration("  ", "f"), Err("f must not be empty".to_string()));
    assert_eq!(validate_duration("s", "f"), Err("f has invalid format: s".to_string()));
    assert_eq!(validate_duration("ms", "f"), Err("f has invalid number: ms".to_string()));
    assert_eq!(validate_duration("1.5.s", "f"), Err("f has invalid number: 1.5.s".to_string()));
    assert_eq!(
        validate_duration("15q", "f"),
        Err("f has invalid unit (must be ms, s, m, or h): 15q".to_string())
    );
    assert_eq!(
        validate_duration("18446744073709551616s", "f"),
        Err("f has invalid number: 18446744073709551616s".to_string())
    );
}

#[test]
fn paths_are_validated() {
    assert_eq!(validate_scrape_path("/metrics"), Ok(()));
    assert_eq!(
        validate_scrape_path("metrics"),
        Err("scrape.path must start with '/', got 'metrics'".to_string())
    );
    assert_eq!(
        validate_scrape_path("/a//b"),
        Err("scrape.path must not contain consecutive slashes: '/a//b'".to_string())
    );
    assert_eq!(
        validate_scrape_path("/a\0"),
        Err("scrape.path must not contain null bytes".to_string())
    );
    let long = format!("/{}", "é".repeat(128));
    assert_eq!(
        validate_scrape_path(&long),
        Err("scrape.path too long (max 256 characters), got 257 characters".to_string())
    );
    let fits = format!("/{}", "a".repeat(255));
    assert_eq!(validate_scrape_path(&fits), Ok(()));
}

#[test]
fn faults_are_found_in_order() {
    let check = |change: &dyn Fn(&mut ExternalPodAutoscaler), message: &str| {
        let mut epa = valid_epa();
        change(&mut epa);
        assert_eq!(validate_epa_spec(&epa), Err(message.to_string()));
    };
    check(
        &|e| e.spec.scale_target_ref.name = "".to_string(),
        "scaleTargetRef.name must not be empty",
    );
    check(
        &|e| e.spec.scale_target_ref.kind = "".to_string(),
        "scaleTargetRef.kind must not be empty",
    );
    check(
        &|e| e.spec.metrics[0].metric_name = "".to_string(),
        "metrics[0].metricName must not be empty",
    );
    check(
        &|e| e.spec.metrics[0].target_value = "".to_string(),
        "metrics[0].targetValue must not be empty",
    );
    check(
        &|e| {
            let mut second = e.spec.metrics[0].clone();
            second.target_value = "50Mi".to_string();
            e.spec.metrics.push(second);
        },
        "metrics[1].targetValue must be a valid number: invalid float literal",
    );
    check(
        &|e| e.spec.scrape.port = 65536,
        "scrape.port must be between 1 and 65535, got 65536",
    );
    check(
        &|e| e.spec.scrape.scheme = "ftp".to_string(),
        "scrape.scheme must be 'http' or 'https', got 'ftp'",
    );
    check(
        &|e| e.spec.scrape.timeout = "x".to_string(),
        "scrape.timeout has invalid format: x",
    );
    check(
        &|e| e.spec.scrape.evaluation_period = "5q".to_string(),
        "scrape.evaluationPeriod has invalid unit (must be ms, s, m, or h): 5q",
    );
}

#[test]
fn durations_without_a_clear_unit_cannot_be_validated() {
    let mut epa = valid_epa();
    epa.spec.scrape.interval = "5µ".to_string();
    assert!(!can_validate(&epa));
    assert!(review_epa("u".to_string(), Ok(epa.clone())).is_none());
    // Another fault is found before the duration is looked at.
    epa.spec.min_replicas = 0;
    assert!(can_validate(&epa));
    let review = review_epa("u".to_string(), Ok(epa)).unwrap().unwrap();
    let answer = review.response.unwrap();
    assert!(!answer.allowed);
    assert_eq!(answer.status.unwrap().message, "minReplicas must be at least 1");
    assert!(matches!(
        review_epa("u".to_string(), Err("bad".to_string())),
        Some(Err(AdmissionError::BadRequest(_)))
    ));
}

#[test]
fn server_settings() {
    assert!(webhooks_enabled(None));
    assert!(webhooks_enabled(Some("true")));
    assert!(webhooks_enabled(Some("no")));
    assert!(!webhooks_enabled(Some("false")));
    assert_eq!(listen_address(8443), "0.0.0.0:8443");
    assert_eq!(endpoints(false), vec![Endpoint::Discovery, Endpoint::Metric]);
    assert_eq!(endpoints(true).len(), 4);
    assert_eq!(
        Endpoint::Validate.path(),
        "/validate-ctx-sh-v1beta1-externalpodautoscaler"
    );
}
