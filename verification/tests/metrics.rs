use nuts::models::metrics::{Metrics, RequestMetric};

fn completed(duration_ms: u32, status: u16, timestamp_ms: u64) -> RequestMetric {
    RequestMetric { duration_ms, status, timestamp_ms }
}

#[test]
fn empty_run_reports_all_zero() {
    let m = Metrics::new();
    let s = m.summary();
    assert_eq!(s.total_requests, 0);
    assert_eq!(s.success_count, 0);
    assert_eq!(s.error_count, 0);
    assert_eq!(s.error_rate_permyriad, 0);
    assert_eq!(s.avg_latency_ms, 0);
    assert_eq!(s.median_latency_ms, 0);
    assert_eq!(s.p95_latency_ms, 0);
    assert_eq!(s.p99_latency_ms, 0);
    assert_eq!(s.std_dev_latency_ms, 0);
    assert_eq!(s.peak_rps, 0);
    assert!(s.status_counts.is_empty());
    assert!(s.requests_per_second.is_empty());
}

#[test]
fn successes_and_errors_partition_the_total() {
    let mut m = Metrics::new();
    m.record(completed(100, 200, 0));
    m.record(completed(150, 404, 100));
    m.record(completed(120, 500, 200));
    m.record_error("connection refused".to_string(), 30, 300);
    m.record(completed(90, 301, 400));
    let s = m.summary();
    assert_eq!(s.total_requests, 5);
    // 200 and 301 are successes; 404, 500 and the transport failure are errors.
    assert_eq!(s.success_count, 2);
    assert_eq!(s.error_count, 3);
    assert_eq!(s.success_count + s.error_count, s.total_requests);
    assert_eq!(s.error_rate_permyriad, 6000);
}

#[test]
fn non_2xx_appears_in_status_counts_and_errors() {
    let mut m = Metrics::new();
    m.record(completed(10, 200, 0));
    m.record(completed(10, 404, 1));
    m.record(completed(10, 200, 2));
    m.record_error("timeout".to_string(), 500, 3);
    let s = m.summary();
    // Transport failures never appear in status_counts; completed requests
    // do, in order of first occurrence.
    assert_eq!(s.status_counts, vec![(200, 2), (404, 1)]);
    assert_eq!(s.error_count, 2);
    assert_eq!(s.total_requests, 4);
}

#[test]
fn latency_statistics_come_from_all_samples() {
    let mut m = Metrics::new();
    m.record(completed(100, 200, 0));
    m.record(completed(300, 200, 10));
    m.record_error("reset".to_string(), 200, 20);
    let s = m.summary();
    assert_eq!(s.avg_latency_ms, 200);
    assert_eq!(s.median_latency_ms, 200);
    assert_eq!(s.p95_latency_ms, 300);
    // Failure latencies are bucketed too: all three fall under 800 ms.
    assert_eq!(s.response_time_ranges.under_800_ms, 3);
    assert_eq!(
        s.response_time_ranges.under_800_ms
            + s.response_time_ranges.under_1200_ms
            + s.response_time_ranges.under_2000_ms
            + s.response_time_ranges.over_2000_ms,
        s.total_requests
    );
}

#[test]
fn per_second_buckets_and_peak() {
    let mut m = Metrics::new();
    m.record(completed(5, 200, 0));
    m.record(completed(5, 200, 500));
    m.record(completed(5, 200, 999));
    m.record(completed(5, 200, 1000));
    m.record(completed(5, 200, 1500));
    m.record(completed(5, 200, 2000));
    let s = m.summary();
    assert_eq!(s.requests_per_second, vec![(0, 3), (1, 2), (2, 1)]);
    assert_eq!(s.peak_rps, 3);
}

#[test]
fn snapshot_is_idempotent_without_new_records() {
    let mut m = Metrics::new();
    m.record(completed(120, 200, 0));
    m.record(completed(80, 503, 700));
    m.record_error("dns".to_string(), 40, 1200);
    let first = m.summary();
    let second = m.summary();
    assert_eq!(first, second);
}

#[test]
fn error_rate_converges_to_half_when_statuses_alternate() {
    // Target alternating 200/500: after 2k samples the rate is exactly half;
    // after an odd count it approaches half as the run grows.
    let mut m = Metrics::new();
    let mut rates = Vec::new();
    for i in 0..1000u64 {
        let status = if i % 2 == 0 { 200 } else { 500 };
        m.record(completed(10, status, i * 10));
        if i == 9 || i == 99 || i == 999 {
            rates.push(m.summary().error_rate_permyriad);
        }
    }
    assert_eq!(rates, vec![5000, 5000, 5000]);
    m.record(completed(10, 200, 10000));
    // 500 errors out of 1001 samples: 4995.00... permyriad.
    assert_eq!(m.summary().error_rate_permyriad, 4995);
}
