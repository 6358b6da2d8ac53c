use dex_arbitrage::metrics::{best_hour, hourly_bucket, ExecutionStats};

#[test]
fn test_metrics() {
    let mut metrics = ExecutionStats::new();

    metrics.record_opportunity();
    metrics.record_success(100);

    assert_eq!(metrics.total_opportunities(), 1);
    assert_eq!(metrics.successful(), 1);
    let success_rate = metrics.successful() as f64 / metrics.executed() as f64;
    assert!((success_rate - 1.0).abs() < 1e-10);
}

#[test]
fn counts_stay_consistent() {
    let mut m = ExecutionStats::new();
    m.record_success(120);
    m.record_failure();
    m.record_success(80);
    m.record_failure();
    m.record_failure();
    assert_eq!(m.executed(), 5);
    assert_eq!(m.successful(), 2);
    assert_eq!(m.failed(), 3);
    assert_eq!(m.executed(), m.successful() + m.failed());
    assert_eq!(m.execution_times(), &vec![120, 80]);
    assert_eq!(m.total_execution_time(), Some(200));
    assert_eq!(m.total_opportunities(), 0);
}

#[test]
fn new_stats_are_empty() {
    let m = ExecutionStats::new();
    assert_eq!(m.executed(), 0);
    assert_eq!(m.total_execution_time(), Some(0));
    assert!(m.execution_times().is_empty());
}

#[test]
fn hour_buckets_wrap() {
    assert_eq!(hourly_bucket(14), 14);
    assert_eq!(hourly_bucket(24), 0);
    assert_eq!(hourly_bucket(49), 1);
}

#[test]
fn best_hour_is_last_maximum() {
    let mut keys = vec![5u64; 24];
    keys[3] = 9;
    keys[17] = 9;
    assert_eq!(best_hour(&keys), 17);
    keys[20] = 10;
    assert_eq!(best_hour(&keys), 20);
    // With all profits equal the last hour is the best.
    assert_eq!(best_hour(&vec![0u64; 24]), 23);
}

#[test]
fn total_time_overflow_is_reported() {
    let mut m = ExecutionStats::new();
    m.record_success(u64::MAX);
    assert_eq!(m.total_execution_time(), Some(u64::MAX));
    m.record_success(1);
    assert_eq!(m.total_execution_time(), None);
}

#[test]
fn default_is_new() {
    let m = ExecutionStats::default();
    assert_eq!(m.total_opportunities(), 0);
    assert_eq!(m.failed(), 0);
}
