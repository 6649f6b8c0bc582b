use rpc_shield::bucket::{TokenBucket, NANOS_PER_SEC};
use rpc_shield::config::{LimitRule, RateLimitConfig};
use rpc_shield::identity::ClientIdentity;
use rpc_shield::limiter::RateLimiter;
use rpc_shield::quota::Quota;
use rpc_shield::strmap::StrMap;

fn ip_config(requests: u32, period: &str) -> RateLimitConfig {
    RateLimitConfig {
        default_ip_limit: LimitRule {
            requests,
            period: period.to_string(),
        },
        method_limits: StrMap::new(),
    }
}

#[test]
fn test_rate_limiter_basic() {
    let config = ip_config(5, "1m");
    let mut limiter = RateLimiter::new(config);
    let identity = ClientIdentity::IpAddress("127.0.0.1".to_string());
    let method = "eth_call".to_string();

    for _ in 0..5 {
        assert!(limiter.check_rate_limit(&identity, &method, None, 0).allowed);
    }

    assert!(!limiter.check_rate_limit(&identity, &method, None, 0).allowed);
}

#[test]
fn test_burst_admits_exactly_the_rule_count() {
    // A burst of R + k immediate checks: exactly R succeed, the rest carry
    // a wait of at least one second.
    let config = ip_config(3, "1s");
    let mut limiter = RateLimiter::new(config);
    let identity = ClientIdentity::IpAddress("10.1.1.1".to_string());
    let method = "eth_call".to_string();

    let mut allowed = 0;
    let mut denied = 0;
    for _ in 0..8 {
        let d = limiter.check_rate_limit(&identity, &method, None, 7);
        if d.allowed {
            assert_eq!(d.retry_after_secs, None);
            allowed += 1;
        } else {
            assert!(d.retry_after_secs.unwrap() >= 1);
            denied += 1;
        }
    }
    assert_eq!(allowed, 3);
    assert_eq!(denied, 5);
}

#[test]
fn test_bucket_refills_over_time() {
    let q = Quota {
        burst: 1,
        period_secs: 1,
    };
    let mut b = TokenBucket::new(q, 0);

    let first = b.check(0);
    assert!(first.allowed);

    // Half a period later the single token is only half back.
    let half = b.check(NANOS_PER_SEC / 2);
    assert!(!half.allowed);
    assert_eq!(half.retry_after_secs, Some(1));

    // A full period after the first take, the token is whole again.
    let later = b.check(NANOS_PER_SEC);
    assert!(later.allowed);
}

#[test]
fn test_keys_do_not_share_buckets() {
    let config = ip_config(1, "1m");
    let mut limiter = RateLimiter::new(config);
    let a = ClientIdentity::IpAddress("10.0.0.1".to_string());
    let b = ClientIdentity::IpAddress("10.0.0.2".to_string());
    let method = "eth_call".to_string();

    assert!(limiter.check_rate_limit(&a, &method, None, 0).allowed);
    assert!(!limiter.check_rate_limit(&a, &method, None, 0).allowed);
    // A different identity has its own full bucket.
    assert!(limiter.check_rate_limit(&b, &method, None, 0).allowed);
    // So does the same identity on another method.
    let other = "eth_blockNumber".to_string();
    assert!(limiter.check_rate_limit(&a, &other, None, 0).allowed);
}

#[test]
fn test_custom_rule_overrides_config() {
    let config = ip_config(100, "1s");
    let mut limiter = RateLimiter::new(config);
    let identity = ClientIdentity::IpAddress("10.0.0.9".to_string());
    let method = "eth_call".to_string();
    let tight = LimitRule {
        requests: 1,
        period: "1m".to_string(),
    };

    assert!(limiter
        .check_rate_limit(&identity, &method, Some(&tight), 0)
        .allowed);
    let d = limiter.check_rate_limit(&identity, &method, Some(&tight), 0);
    assert!(!d.allowed);
    assert_eq!(d.retry_after_secs, Some(60));
}

#[test]
fn test_unparsable_rule_falls_back_to_100_per_minute() {
    let config = ip_config(2, "nonsense");
    let mut limiter = RateLimiter::new(config);
    let identity = ClientIdentity::IpAddress("10.0.0.7".to_string());
    let method = "eth_call".to_string();

    let mut allowed = 0;
    for _ in 0..150 {
        if limiter.check_rate_limit(&identity, &method, None, 0).allowed {
            allowed += 1;
        }
    }
    assert_eq!(allowed, 100);
}

#[test]
fn test_cleanup_forgets_buckets() {
    let config = ip_config(1, "1m");
    let mut limiter = RateLimiter::new(config);
    let identity = ClientIdentity::IpAddress("10.0.0.3".to_string());
    let method = "eth_call".to_string();

    assert!(limiter.check_rate_limit(&identity, &method, None, 0).allowed);
    assert!(!limiter.check_rate_limit(&identity, &method, None, 0).allowed);
    limiter.cleanup();
    assert!(limiter.check_rate_limit(&identity, &method, None, 0).allowed);
}
