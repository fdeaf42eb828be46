use external_pod_autoscaler::apis::externalpodautoscaler as epa;
use external_pod_autoscaler::apis::metric::{
    AggregationType, MetricSpec, MetricStatus, MetricTarget, MetricTargetFields, MetricValueType,
    Selector, SelectorOperator, SelectorRequirement,
};
use external_pod_autoscaler::labels::Labels;

fn fields(name: &str) -> MetricTargetFields {
    MetricTargetFields {
        port: None,
        path: None,
        interval_seconds: None,
        timeout_seconds: None,
        metric_name: name.to_string(),
        value_type: None,
        window_duration_seconds: None,
        aggregation: None,
    }
}

#[test]
fn test_metric_target_gauge_default_aggregation() {
    let mut f = fields("gauge_metric");
    f.value_type = Some(MetricValueType::Gauge);
    let target = MetricTarget::deserialize(f);
    assert!(matches!(target.aggregation, AggregationType::Avg));
}

#[test]
fn test_metric_target_counter_default_aggregation() {
    let mut f = fields("counter_metric");
    f.value_type = Some(MetricValueType::Counter);
    let target = MetricTarget::deserialize(f);
    assert!(matches!(target.aggregation, AggregationType::Rate));
}

#[test]
fn test_metric_target_explicit_aggregation_overrides_default() {
    let mut f = fields("test_metric");
    f.value_type = Some(MetricValueType::Gauge);
    f.aggregation = Some(AggregationType::Sum);
    let target = MetricTarget::deserialize(f);
    assert!(matches!(target.aggregation, AggregationType::Sum));

    let mut f = fields("test_metric");
    f.value_type = Some(MetricValueType::Counter);
    f.aggregation = Some(AggregationType::Max);
    let target = MetricTarget::deserialize(f);
    assert!(matches!(target.aggregation, AggregationType::Max));
}

#[test]
fn test_metric_target_applies_all_defaults() {
    let target = MetricTarget::deserialize(fields("test_metric"));

    assert_eq!(target.port, 8080);
    assert_eq!(target.path, "/metrics");
    assert_eq!(target.interval_seconds, 30);
    assert_eq!(target.timeout_seconds, 10);
    assert_eq!(target.window_duration_seconds, 120);
    assert!(matches!(target.value_type, MetricValueType::Gauge));
    assert!(matches!(target.aggregation, AggregationType::Avg));
}

#[test]
fn test_metric_target_partial_overrides() {
    let mut f = fields("custom_metric");
    f.port = Some(9090);
    f.interval_seconds = Some(60);
    f.value_type = Some(MetricValueType::Counter);
    let target = MetricTarget::deserialize(f);

    assert_eq!(target.port, 9090);
    assert_eq!(target.path, "/metrics");
    assert_eq!(target.interval_seconds, 60);
    assert_eq!(target.timeout_seconds, 10);
    assert!(matches!(target.value_type, MetricValueType::Counter));
    assert!(matches!(target.aggregation, AggregationType::Rate));
}

#[test]
fn test_selector_operator_equality() {
    assert_eq!(SelectorOperator::In, SelectorOperator::In);
    assert_ne!(SelectorOperator::In, SelectorOperator::NotIn);
    assert_ne!(SelectorOperator::Exists, SelectorOperator::DoesNotExist);
}

#[test]
fn test_selector_requirement() {
    let requirement = SelectorRequirement {
        key: "environment".to_string(),
        operator: SelectorOperator::In,
        values: Some(vec!["production".to_string(), "staging".to_string()]),
    };
    assert_eq!(requirement.key, "environment");
    assert_eq!(requirement.operator, SelectorOperator::In);
    assert_eq!(requirement.values.unwrap()[0], "production");
}

#[test]
fn test_metric_spec_selector() {
    let mut labels = Labels::new();
    labels.insert("app".to_string(), "myapp".to_string());
    let target = MetricTarget::deserialize(fields("test_metric"));
    let spec = MetricSpec {
        selector: Selector { match_labels: Some(labels.clone()), match_expressions: None },
        target: target.clone(),
    };
    assert!(spec.selector.match_labels.is_some());
    assert!(spec.selector.match_expressions.is_none());

    let spec_with_expressions = MetricSpec {
        selector: Selector {
            match_labels: None,
            match_expressions: Some(vec![SelectorRequirement {
                key: "environment".to_string(),
                operator: SelectorOperator::In,
                values: Some(vec!["production".to_string(), "staging".to_string()]),
            }]),
        },
        target: target.clone(),
    };
    assert!(spec_with_expressions.selector.match_labels.is_none());
    assert!(spec_with_expressions.selector.match_expressions.is_some());

    let spec_with_both = MetricSpec {
        selector: Selector {
            match_labels: Some(labels),
            match_expressions: Some(vec![SelectorRequirement {
                key: "tier".to_string(),
                operator: SelectorOperator::Exists,
                values: None,
            }]),
        },
        target,
    };
    assert!(spec_with_both.selector.match_labels.is_some());
    assert!(spec_with_both.selector.match_expressions.is_some());
}

#[test]
fn test_metric_status_default_values() {
    let status = MetricStatus::default();

    assert_eq!(status.total_targets, 0);
    assert_eq!(status.scraped_targets, 0);
    assert!(status.last_scrape_time.is_none());
}

#[test]
fn test_metric_status_with_values() {
    let status = MetricStatus {
        total_targets: 5,
        scraped_targets: 4,
        last_scrape_time: Some("2024-01-01T12:00:00Z".to_string()),
    };

    assert_eq!(status.total_targets, 5);
    assert_eq!(status.scraped_targets, 4);
    assert_eq!(status.last_scrape_time, Some("2024-01-01T12:00:00Z".to_string()));
}

#[test]
fn defaults_of_an_autoscaler() {
    assert_eq!(epa::default_min_replicas(), 1);
    assert_eq!(epa::default_port(), 8080);
    assert_eq!(epa::default_path(), "/metrics");
    assert_eq!(epa::default_interval(), "15s");
    assert_eq!(epa::default_timeout(), "1s");
    assert_eq!(epa::default_scheme(), "http");
    assert_eq!(epa::default_evaluation_period(), "60s");
    assert_eq!(epa::default_api_version(), "apps/v1");
    assert_eq!(epa::AggregationType::default(), epa::AggregationType::Avg);
    assert_eq!(epa::MetricTargetType::default(), epa::MetricTargetType::AverageValue);
    let status = epa::ExternalPodAutoscalerStatus::default();
    assert!(status.managed_hpa.is_none());
    assert!(status.conditions.is_empty());
}
