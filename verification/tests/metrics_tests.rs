use rpc_shield::metrics::{record, Metrics, Outcome};

#[test]
fn test_counter_sum_equals_total() {
    let mut m = Metrics::new();
    let outcomes = [
        Outcome::Allowed,
        Outcome::Allowed,
        Outcome::RateLimited,
        Outcome::Blocked,
        Outcome::AuthFailed,
        Outcome::UpstreamFail,
        Outcome::InternalFail,
        Outcome::Allowed,
    ];
    for (i, o) in outcomes.iter().enumerate() {
        record(&mut m, *o, (i as u64 + 1) * 1_000_000);
    }
    assert_eq!(m.requests_total, 8);
    assert_eq!(
        m.requests_total,
        m.allowed_total
            + m.rate_limited_total
            + m.blocked_total
            + m.auth_failed_total
            + m.upstream_fail_total
            + m.internal_fail_total
    );
    assert_eq!(m.allowed_total, 3);
    assert_eq!(m.rate_limited_total, 1);
    assert_eq!(m.blocked_total, 1);
    assert_eq!(m.auth_failed_total, 1);
    assert_eq!(m.upstream_fail_total, 1);
    assert_eq!(m.internal_fail_total, 1);
}

#[test]
fn test_histogram_buckets_are_cumulative() {
    let mut m = Metrics::new();
    // 0.5 ms, 3 ms and 2 s.
    record(&mut m, Outcome::Allowed, 500_000);
    record(&mut m, Outcome::Allowed, 3_000_000);
    record(&mut m, Outcome::Allowed, 2_000_000_000);
    // le="0.001": only the first; le="0.005": first two; le="5": all.
    assert_eq!(m.duration_le[0], 1);
    assert_eq!(m.duration_le[1], 2);
    assert_eq!(m.duration_le[2], 2);
    assert_eq!(m.duration_le[6], 2);
    assert_eq!(m.duration_le[7], 3);
    assert_eq!(m.duration_le[8], 3);
    assert_eq!(m.duration_sum_ns, 2_003_500_000);
}

#[test]
fn test_render_scrape_text() {
    let mut m = Metrics::new();
    record(&mut m, Outcome::Allowed, 1_500_000_000);
    record(&mut m, Outcome::RateLimited, 2_000_000);
    let page = m.render();
    assert!(page.contains("# TYPE rpc_shield_requests_total counter\n"));
    assert!(page.contains("\nrpc_shield_requests_total 2\n"));
    assert!(page.contains("rpc_shield_requests_allowed_total 1\n"));
    assert!(page.contains("rpc_shield_requests_rate_limited_total 1\n"));
    assert!(page.contains("rpc_shield_requests_blocked_total 0\n"));
    assert!(page.contains("# TYPE rpc_shield_request_duration_seconds histogram\n"));
    assert!(page.contains("rpc_shield_request_duration_seconds_bucket{le=\"0.005\"} 1\n"));
    assert!(page.contains("rpc_shield_request_duration_seconds_bucket{le=\"5\"} 2\n"));
    assert!(page.contains("rpc_shield_request_duration_seconds_bucket{le=\"+Inf\"} 2\n"));
    assert!(page.contains("rpc_shield_request_duration_seconds_sum 1.502000000\n"));
    assert!(page.contains("rpc_shield_request_duration_seconds_count 2\n"));
}

#[test]
fn test_render_all_zero() {
    let m = Metrics::new();
    let page = m.render();
    assert!(page.contains("rpc_shield_requests_total 0\n"));
    assert!(page.contains("rpc_shield_request_duration_seconds_sum 0.000000000\n"));
    assert!(page.contains("rpc_shield_request_duration_seconds_count 0\n"));
}
