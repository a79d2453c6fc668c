use meilibridge::config::performance::AdaptiveBatchingConfig;
use meilibridge::pipeline::adaptive_batching::{
    calculate_average_latency, bounded_batch_size, AdaptiveBatchingManager, BatchMetrics, BatchSizeStep,
};
use meilibridge::pipeline::backpressure::{BackpressureConfig, BackpressureEvent, BackpressureManager, UsageLevel};

fn metrics(size: usize, ms: u64) -> BatchMetrics {
    BatchMetrics {
        batch_size: size,
        processing_time_ms: ms,
        documents_per_second: 0,
        memory_usage_mb: 0,
        timestamp: tokio::time::Instant::now(),
    }
}

#[test]
fn average_latency_rounds_down() {
    assert_eq!(calculate_average_latency(&vec![]), 0);
    assert_eq!(calculate_average_latency(&vec![metrics(1, 10), metrics(1, 15)]), 12);
    assert_eq!(calculate_average_latency(&vec![metrics(1, u64::MAX), metrics(1, u64::MAX)]), u64::MAX);
}

#[test]
fn without_per_table_optimization_the_default_size_is_used() {
    let mut c = AdaptiveBatchingConfig::default();
    c.per_table_optimization = false;
    let mut m = AdaptiveBatchingManager::new(c);
    assert_eq!(m.get_batch_size(&"users".to_string(), 500), BatchSizeStep::Fixed(500));
    assert!(m.get_statistics().is_empty());
}

#[test]
fn a_new_table_starts_at_the_default_size() {
    let mut m = AdaptiveBatchingManager::new(AdaptiveBatchingConfig::default());
    assert_eq!(m.get_batch_size(&"users".to_string(), 500), BatchSizeStep::Fixed(500));
    let stats = m.get_statistics();
    assert_eq!(stats.len(), 1);
    assert_eq!(stats[0].0, "users");
    assert_eq!(stats[0].1.current_batch_size, 500);
}

#[test]
fn the_window_keeps_the_latest_measurements() {
    let mut c = AdaptiveBatchingConfig::default();
    c.metric_window_size = 2;
    c.target_latency_ms = 100;
    let mut m = AdaptiveBatchingManager::new(c);
    let t = "orders".to_string();
    m.record_metrics(&t, metrics(10, 50));
    m.record_metrics(&t, metrics(10, 60));
    m.record_metrics(&t, metrics(10, 300));
    let stats = m.get_statistics();
    assert_eq!(stats[0].1.metrics_count, 2);
    assert_eq!(stats[0].1.average_latency_ms, 180);
    assert_eq!(stats[0].1.consecutive_failures, 1);
    assert_eq!(stats[0].1.consecutive_successes, 0);
    assert_eq!(stats[0].1.current_batch_size, 10);
}

#[test]
fn applied_sizes_replace_the_current_one() {
    let mut m = AdaptiveBatchingManager::new(AdaptiveBatchingConfig::default());
    let t = "users".to_string();
    m.get_batch_size(&t, 100);
    m.apply_batch_size(&t, 150);
    assert_eq!(m.get_statistics()[0].1.current_batch_size, 150);
}

#[test]
fn sizes_are_bounded() {
    assert_eq!(bounded_batch_size(5, 10, 100), 10);
    assert_eq!(bounded_batch_size(500, 10, 100), 100);
    assert_eq!(bounded_batch_size(50, 10, 100), 50);
    assert_eq!(bounded_batch_size(5, 200, 100), 100);
}

#[test]
fn backpressure_pauses_and_resumes_once() {
    let mut m = BackpressureManager::new(BackpressureConfig::default());
    let t = "users".to_string();
    m.register_table(&t);
    m.update_channel_size(&t, 900);
    let high = UsageLevel { at_or_above_high: true, at_or_below_low: false };
    let low = UsageLevel { at_or_above_high: false, at_or_below_low: true };
    let events = m.check(&vec![(t.clone(), high)]);
    assert!(matches!(&events[..], [BackpressureEvent::PauseSource(s)] if s == "users"));
    assert!(m.is_throttled(&t));
    assert!(m.check(&vec![(t.clone(), high)]).is_empty());
    let events = m.check(&vec![(t.clone(), low)]);
    assert!(matches!(&events[..], [BackpressureEvent::ResumeSource(s)] if s == "users"));
    assert!(!m.is_throttled(&t));
    assert!(m.check(&vec![("unknown".to_string(), high)]).is_empty());
}

#[test]
fn backpressure_defaults() {
    let c = BackpressureConfig::default();
    assert_eq!(f64::from_bits(c.high_watermark), 80.0);
    assert_eq!(f64::from_bits(c.low_watermark), 60.0);
    assert_eq!(c.check_interval_ms, 100);
    assert_eq!(c.channel_capacity, 1000);
}
