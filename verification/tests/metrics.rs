use s2_cli::metrics::SessionMetrics;

#[test]
fn metrics_start_with_the_first_event() {
    let mut metrics = SessionMetrics::new();
    assert_eq!(metrics.started_at, None);
    assert_eq!(metrics.total_metered_bytes, 0);
    assert_eq!(metrics.throughput(5), None);
    metrics.observe(100, 10);
    assert_eq!(metrics.started_at, Some(100));
    assert_eq!(metrics.total_metered_bytes, 10);
    metrics.observe(250, 5);
    assert_eq!(metrics.started_at, Some(100));
    assert_eq!(metrics.total_metered_bytes, 15);
}

#[test]
fn throughput_is_bytes_per_second() {
    let mut metrics = SessionMetrics::new();
    metrics.observe(1_000, 3_000);
    assert_eq!(metrics.elapsed_millis(3_000), 2_000);
    assert_eq!(metrics.throughput(3_000), Some(1_500));
    assert_eq!(metrics.throughput(1_001), Some(3_000_000));
    metrics.observe(2_000, 1);
    // 3001 bytes in 3 seconds, rounded down
    assert_eq!(metrics.throughput(4_000), Some(1_000));
}

#[test]
fn throughput_without_elapsed_time_is_zero() {
    let mut metrics = SessionMetrics::new();
    metrics.observe(500, 1_000_000);
    assert_eq!(metrics.throughput(500), Some(0));
    // a clock that went back counts as no time passed
    assert_eq!(metrics.elapsed_millis(400), 0);
    assert_eq!(metrics.throughput(400), Some(0));
}

#[test]
fn totals_stop_at_the_largest_count() {
    let mut metrics = SessionMetrics::new();
    metrics.observe(0, u64::MAX - 1);
    metrics.observe(1, 5);
    assert_eq!(metrics.total_metered_bytes, u64::MAX);
    assert_eq!(metrics.throughput(1), Some(u64::MAX));
    assert_eq!(metrics.throughput(2_000), Some(u64::MAX / 2));
}
