use external_pod_autoscaler::apis::externalpodautoscaler::AggregationType;
use external_pod_autoscaler::names::NameSet;
use external_pod_autoscaler::store::ops::MetricsStore;
use external_pod_autoscaler::store::types::{
    CachedAggregation, LabeledSample, MetricConfig, MetricType, SampleKey, ScrapeStats,
};
use external_pod_autoscaler::store::window::MetricWindow;

const MS: u64 = 1_000_000;
const SECOND: u64 = 1_000_000_000;

fn bits(value: f64) -> u64 {
    value.to_bits()
}

fn key(epa: &str, metric: &str, pod: &str) -> SampleKey {
    SampleKey::new(
        "default".to_string(),
        epa.to_string(),
        metric.to_string(),
        pod.to_string(),
    )
}

fn sample(value: &str, scraped_at: u64) -> LabeledSample {
    LabeledSample {
        value: value.to_string(),
        scraped_at,
        success: true,
        metric_type: MetricType::Gauge,
    }
}

#[test]
fn test_cached_aggregation_validity() {
    let start = 5 * SECOND;
    let cached = CachedAggregation::new(bits(42.0), 100 * MS as u128, start);
    assert!(cached.is_valid(start));
    assert!(cached.is_valid(start + 99 * MS));
    assert!(!cached.is_valid(start + 150 * MS));
}

#[test]
fn test_store_push_and_get() {
    let mut store = MetricsStore::new();
    store.push_sample(key("test-epa", "http_requests", "pod-1"), sample("100.0", 0), 10);

    let windows = store.get_windows("default", "test-epa", "http_requests");
    assert_eq!(windows.len(), 1);
    assert_eq!(windows[0].1.samples.len(), 1);
    assert_eq!(windows[0].1.samples[0].value, "100.0");
}

#[test]
fn test_cache() {
    let mut store = MetricsStore::new();

    // No cached value initially
    let cached = store.get_cached("default", "test-epa", "http_requests", 0);
    assert!(cached.is_none());

    // Store value
    store.cache_result(
        "default",
        "test-epa",
        "http_requests",
        bits(42.0),
        10 * SECOND as u128,
        0,
    );

    // Should be cached now
    let cached = store.get_cached("default", "test-epa", "http_requests", 0);
    assert_eq!(cached.map(f64::from_bits), Some(42.0));
}

// Push samples for 3 pods, get_windows returns all 3.
#[test]
fn store_multi_pod_windows() {
    let mut store = MetricsStore::new();

    for i in 1..=3 {
        let value = format!("{}", i as f64 * 10.0);
        let pod = format!("pod-{}", i);
        store.push_sample(key("test-epa", "http_requests", &pod), sample(&value, 0), 10);
    }

    let windows = store.get_windows("default", "test-epa", "http_requests");
    assert_eq!(windows.len(), 3, "should have windows for 3 pods");

    let pod_names: Vec<&str> = windows.iter().map(|(name, _)| name.as_str()).collect();
    assert!(pod_names.contains(&"pod-1"));
    assert!(pod_names.contains(&"pod-2"));
    assert!(pod_names.contains(&"pod-3"));
}

// Push for two EPAs, remove one, verify only one remains.
#[test]
fn store_remove_epa_windows() {
    let mut store = MetricsStore::new();
    store.push_sample(key("epa-1", "metric_a", "pod-1"), sample("10.0", 0), 10);
    store.push_sample(key("epa-2", "metric_b", "pod-2"), sample("20.0", 0), 10);

    // Also cache and config for EPA 1
    store.cache_result("default", "epa-1", "metric_a", bits(42.0), 10 * SECOND as u128, 0);
    store.set_metric_config(
        "default",
        "epa-1",
        "metric_a",
        MetricConfig::new(AggregationType::Max),
    );

    // Remove EPA 1
    store.remove_epa_windows("default", "epa-1");

    // EPA 1 should be gone
    assert!(store.get_windows("default", "epa-1", "metric_a").is_empty());
    assert!(store.get_cached("default", "epa-1", "metric_a", 0).is_none());
    assert_eq!(
        store.get_metric_config("default", "epa-1", "metric_a").aggregation_type,
        AggregationType::Avg
    );

    // EPA 2 should still exist
    assert_eq!(store.get_windows("default", "epa-2", "metric_b").len(), 1);
}

// set_metric_config then get_metric_config, verify values.
#[test]
fn store_metric_config_roundtrip() {
    let mut store = MetricsStore::new();

    let config = MetricConfig::new(AggregationType::Median);
    store.set_metric_config("prod", "scaler", "queue_depth", config);

    let retrieved = store.get_metric_config("prod", "scaler", "queue_depth");
    assert!(
        matches!(retrieved.aggregation_type, AggregationType::Median),
        "aggregation type should be Median"
    );

    // Non-existent config should return defaults
    let default_config = store.get_metric_config("prod", "scaler", "nonexistent");
    assert!(matches!(
        default_config.aggregation_type,
        AggregationType::Avg
    ));
    assert_eq!(default_config.evaluation_period, 60 * SECOND as u128);
}

// Cache with short TTL, sleep, cleanup removes expired entries.
#[test]
fn store_cleanup_expired_cache() {
    let mut store = MetricsStore::new();

    // Short-lived cache entry
    store.cache_result("default", "test-epa", "metric_1", bits(42.0), 50 * MS as u128, 0);

    // Long-lived cache entry
    store.cache_result("default", "test-epa", "metric_2", bits(99.0), 60 * SECOND as u128, 0);

    // Both should be present initially
    assert!(store.get_cached("default", "test-epa", "metric_1", 0).is_some());
    assert!(store.get_cached("default", "test-epa", "metric_2", 0).is_some());

    // Wait for short-lived entry to expire
    let now = 100 * MS;
    let removed = store.cleanup_expired_cache(now);
    assert!(removed >= 1, "at least one entry should be cleaned up");
    assert_eq!(removed, 1);

    // Short-lived should be gone
    assert!(store.get_cached("default", "test-epa", "metric_1", now).is_none());
    // Long-lived should still be there
    assert!(store.get_cached("default", "test-epa", "metric_2", now).is_some());
}

#[test]
fn scrape_stats_record_and_snapshot() {
    let mut store = MetricsStore::new();
    let stats = store.get_scrape_stats("default", "test-epa");

    stats.record_success(&mut store);
    stats.record_success(&mut store);
    stats.record_error(&mut store);

    let (scraped, errors) = stats.snapshot_and_reset(&mut store);
    assert_eq!(scraped, 2);
    assert_eq!(errors, 1);
}

#[test]
fn scrape_stats_snapshot_and_reset_zeroes() {
    let mut store = MetricsStore::new();
    let stats = store.get_scrape_stats("default", "test-epa");

    stats.record_success(&mut store);
    stats.record_error(&mut store);

    let (scraped, errors) = stats.snapshot_and_reset(&mut store);
    assert_eq!(scraped, 1);
    assert_eq!(errors, 1);

    // Second call should return zeros
    let (scraped, errors) = stats.snapshot_and_reset(&mut store);
    assert_eq!(scraped, 0);
    assert_eq!(errors, 0);
}

#[test]
fn scrape_stats_shared_instance() {
    let mut store = MetricsStore::new();
    let stats1 = store.get_scrape_stats("default", "test-epa");
    let stats2 = store.get_scrape_stats("default", "test-epa");

    stats1.record_success(&mut store);
    let (scraped, _) = stats2.snapshot_and_reset(&mut store);
    assert_eq!(scraped, 1, "both handles should stand for the same statistics");
}

#[test]
fn remove_epa_cleans_scrape_stats() {
    let mut store = MetricsStore::new();
    let stats = store.get_scrape_stats("default", "epa-1");
    stats.record_success(&mut store);

    store.remove_epa_windows("default", "epa-1");

    // After removal, get_scrape_stats should return a fresh instance
    let fresh = store.get_scrape_stats("default", "epa-1");
    let (scraped, errors) = fresh.snapshot_and_reset(&mut store);
    assert_eq!(scraped, 0);
    assert_eq!(errors, 0);
}

#[test]
fn scrape_stats_of_resources_are_apart() {
    let mut store = MetricsStore::new();
    let one = store.get_scrape_stats("default", "one");
    let two = store.get_scrape_stats("default", "two");
    one.record_error(&mut store);
    one.restore(&mut store, 5, -1);
    assert_eq!(two.snapshot_and_reset(&mut store), (0, 0));
    assert_eq!(one.snapshot_and_reset(&mut store), (5, 0));
}

#[test]
fn retain_pod_windows_removes_terminated_pods() {
    let mut store = MetricsStore::new();

    // Create windows for 3 pods under the same EPA
    for pod in &["pod-1", "pod-2", "pod-3"] {
        store.push_sample(key("test-epa", "cpu", pod), sample("1.0", 0), 10);
    }

    // Create a window for a different EPA to verify it's untouched
    store.push_sample(key("other-epa", "cpu", "pod-2"), sample("1.0", 0), 10);

    // Only pod-1 and pod-3 are active
    let mut active = NameSet::new();
    active.insert("pod-1".to_string());
    active.insert("pod-3".to_string());
    let removed = store.retain_pod_windows("default", "test-epa", &active);

    assert_eq!(removed, 1, "pod-2 window should have been removed");

    // pod-1 and pod-3 should still exist
    let windows = store.get_windows("default", "test-epa", "cpu");
    assert_eq!(windows.len(), 2);
    let names: Vec<&str> = windows.iter().map(|(n, _)| n.as_str()).collect();
    assert!(names.contains(&"pod-1"));
    assert!(names.contains(&"pod-3"));

    // other-epa's pod-2 should be untouched
    let other_windows = store.get_windows("default", "other-epa", "cpu");
    assert_eq!(other_windows.len(), 1);
}

#[test]
fn test_metric_window_push() {
    let mut window = MetricWindow::new(3);
    assert_eq!(window.samples.len(), 0);

    let sample = sample("100.0", 0);

    window.push(sample.clone());
    assert_eq!(window.samples.len(), 1);

    window.push(sample.clone());
    window.push(sample.clone());
    assert_eq!(window.samples.len(), 3);

    // Fourth push should evict first
    window.push(sample.clone());
    assert_eq!(window.samples.len(), 3);
}

#[test]
fn is_window_sufficient_empty() {
    let window = MetricWindow::new(10);
    assert!(!window.is_window_sufficient(60 * SECOND as u128, 1, 0));
}

#[test]
fn is_window_sufficient_below_threshold() {
    let mut window = MetricWindow::new(10);
    let sample = sample("1.0", 0);

    window.push(sample.clone());
    window.push(sample);

    assert!(!window.is_window_sufficient(60 * SECOND as u128, 3, 0));
}

#[test]
fn is_window_sufficient_at_threshold() {
    let mut window = MetricWindow::new(10);
    let sample = sample("1.0", 0);

    window.push(sample.clone());
    window.push(sample.clone());
    window.push(sample);

    assert!(window.is_window_sufficient(60 * SECOND as u128, 3, 0));
}

#[test]
fn is_window_sufficient_expired_samples() {
    let now = 1000 * SECOND;
    let mut window = MetricWindow::new(10);
    let expired_sample = sample("1.0", now - 120 * SECOND);

    window.push(expired_sample.clone());
    window.push(expired_sample.clone());
    window.push(expired_sample);

    assert!(!window.is_window_sufficient(60 * SECOND as u128, 1, now));
}

#[test]
fn is_window_sufficient_mixed_samples() {
    let now = 1000 * SECOND;
    let mut window = MetricWindow::new(10);
    let expired = sample("1.0", now - 120 * SECOND);
    let fresh = sample("2.0", now);

    window.push(expired.clone());
    window.push(expired);
    window.push(fresh);

    assert!(!window.is_window_sufficient(60 * SECOND as u128, 2, now));
    assert!(window.is_window_sufficient(60 * SECOND as u128, 1, now));
}

#[test]
fn windows_keep_the_newest_samples_in_order() {
    let mut store = MetricsStore::new();
    for i in 0..5u64 {
        store.push_sample(key("e", "m", "p"), sample(&i.to_string(), i), 3);
    }
    let windows = store.get_windows("default", "e", "m");
    let values: Vec<&str> = windows[0].1.samples.iter().map(|s| s.value.as_str()).collect();
    assert_eq!(values, vec!["2", "3", "4"]);
}

#[test]
fn stale_windows_are_evicted() {
    let mut store = MetricsStore::new();
    store.push_sample(key("e", "m", "old"), sample("1", 0), 3);
    store.push_sample(key("e", "m", "new"), sample("1", 100 * SECOND), 3);
    assert_eq!(store.evict_stale_windows(120 * SECOND as u128, 120 * SECOND), 0);
    assert_eq!(store.evict_stale_windows(120 * SECOND as u128, 121 * SECOND), 1);
    let windows = store.get_windows("default", "e", "m");
    assert_eq!(windows.len(), 1);
    assert_eq!(windows[0].0, "new");
    assert_eq!(windows[0].1.newest_sample_age(121 * SECOND), Some(21 * SECOND));
}

#[test]
fn restored_stats_are_counted_again() {
    let mut stats = ScrapeStats::new();
    stats.record_success();
    stats.record_error();
    let (scraped, errors) = stats.snapshot_and_reset();
    stats.record_success();
    stats.restore(scraped, errors);
    assert_eq!(stats.snapshot_and_reset(), (2, 1));
}

#[test]
fn samples_of_a_period_are_given() {
    let mut window = MetricWindow::new(10);
    for i in [0, 30, 61, 90] {
        window.push(sample(&i.to_string(), i * SECOND));
    }
    let recent = window.get_samples_in_period(60 * SECOND as u128, 90 * SECOND);
    let values: Vec<&str> = recent.iter().map(|s| s.value.as_str()).collect();
    assert_eq!(values, vec!["30", "61", "90"]);
}
