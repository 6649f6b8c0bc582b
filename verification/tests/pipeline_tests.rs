use rpc_shield::config::{
    ApiKeyConfig, BlocklistConfig, Config, LimitRule, MonitoringConfig, RateLimitConfig,
    RpcBackendConfig, ServerConfig, SubscriptionTier, TierLimits,
};
use rpc_shield::identity::HeaderValue;
use rpc_shield::jsonrpc::{error_response, JsonRpcResponse, JsonValue};
use rpc_shield::limiter::RateLimiter;
use rpc_shield::metrics::Outcome;
use rpc_shield::pipeline::{admit_request, finish_forward, Admission, ProxyState};
use rpc_shield::strmap::StrMap;

fn rule(requests: u32, period: &str) -> LimitRule {
    LimitRule {
        requests,
        period: period.to_string(),
    }
}

fn state_with(
    default: LimitRule,
    method_limits: StrMap<LimitRule>,
    api_keys: StrMap<ApiKeyConfig>,
    api_key_tiers: TierLimits,
    blocklist: Vec<String>,
) -> ProxyState {
    ProxyState {
        rate_limiter: RateLimiter::new(RateLimitConfig {
            default_ip_limit: default,
            method_limits,
        }),
        rpc_backend_url: "http://localhost:8546".to_string(),
        api_keys,
        api_key_tiers,
        blocklist,
    }
}

fn plain_state(default: LimitRule) -> ProxyState {
    state_with(
        default,
        StrMap::new(),
        StrMap::new(),
        TierLimits::new(),
        Vec::new(),
    )
}

fn deny_parts(adm: Admission) -> (u16, Option<u64>, Outcome, JsonRpcResponse) {
    match adm {
        Admission::Deny {
            status,
            retry_after_secs,
            outcome,
            response,
        } => (status, retry_after_secs, outcome, response),
        Admission::Forward => panic!("expected a denial"),
    }
}

fn id_num(n: &str) -> Option<JsonValue> {
    Some(JsonValue::Num(n.to_string()))
}

#[test]
fn test_ip_fallback_under_default_limit() {
    // Two requests per second for bare addresses; the third within the
    // same instant is denied with a one-second wait.
    let mut state = plain_state(rule(2, "1s"));
    let peer = "10.0.0.1".to_string();

    for n in 0..2 {
        let adm = admit_request(
            &mut state,
            &peer,
            None,
            None,
            "eth_call".to_string(),
            id_num(&n.to_string()),
            0,
        );
        assert!(matches!(adm, Admission::Forward));
    }
    let adm = admit_request(
        &mut state,
        &peer,
        None,
        None,
        "eth_call".to_string(),
        id_num("3"),
        0,
    );
    let (status, retry, outcome, response) = deny_parts(adm);
    assert_eq!(status, 429);
    assert_eq!(retry, Some(1));
    assert_eq!(outcome, Outcome::RateLimited);
    let err = response.error.unwrap();
    assert_eq!(err.code, -32005);
    assert_eq!(err.message, "Rate limit exceeded");
    assert!(matches!(response.id, Some(JsonValue::Num(ref s)) if s == "3"));
}

#[test]
fn test_invalid_scheme_never_consumes_a_token() {
    let mut state = plain_state(rule(1, "1m"));
    let peer = "10.0.0.2".to_string();
    let basic = HeaderValue::Ascii("Basic xyz".to_string());

    let adm = admit_request(
        &mut state,
        &peer,
        Some(&basic),
        None,
        "eth_call".to_string(),
        None,
        0,
    );
    let (status, _, outcome, response) = deny_parts(adm);
    assert_eq!(status, 401);
    assert_eq!(outcome, Outcome::AuthFailed);
    let err = response.error.unwrap();
    assert_eq!(err.code, -32000);
    assert_eq!(err.message, "Invalid authorization scheme");

    // The address's own single token is still there.
    let adm = admit_request(
        &mut state,
        &peer,
        None,
        None,
        "eth_call".to_string(),
        None,
        0,
    );
    assert!(matches!(adm, Admission::Forward));
}

#[test]
fn test_blocked_ip_beats_valid_credentials() {
    let mut api_keys = StrMap::new();
    api_keys.insert(
        "k".to_string(),
        ApiKeyConfig {
            tier: SubscriptionTier::Free,
            limits: StrMap::new(),
            enabled: true,
        },
    );
    let mut state = state_with(
        rule(1, "1m"),
        StrMap::new(),
        api_keys,
        TierLimits::new(),
        vec!["1.2.3.4".to_string()],
    );
    let bearer = HeaderValue::Ascii("Bearer k".to_string());

    let adm = admit_request(
        &mut state,
        &"1.2.3.4".to_string(),
        Some(&bearer),
        None,
        "eth_call".to_string(),
        id_num("1"),
        0,
    );
    let (status, _, outcome, response) = deny_parts(adm);
    assert_eq!(status, 403);
    assert_eq!(outcome, Outcome::Blocked);
    assert_eq!(response.error.unwrap().code, -32001);

    // No token was consumed for the key: from an unblocked address its
    // single token is still available.
    let adm = admit_request(
        &mut state,
        &"5.6.7.8".to_string(),
        Some(&bearer),
        None,
        "eth_call".to_string(),
        id_num("2"),
        0,
    );
    assert!(matches!(adm, Admission::Forward));
}

#[test]
fn test_unknown_and_disabled_keys_fail_auth() {
    let mut api_keys = StrMap::new();
    api_keys.insert(
        "off".to_string(),
        ApiKeyConfig {
            tier: SubscriptionTier::Pro,
            limits: StrMap::new(),
            enabled: false,
        },
    );
    let mut state = state_with(
        rule(10, "1s"),
        StrMap::new(),
        api_keys,
        TierLimits::new(),
        Vec::new(),
    );

    for raw in ["missing", "off"] {
        let bearer = HeaderValue::Ascii(format!("Bearer {raw}"));
        let adm = admit_request(
            &mut state,
            &"10.0.0.3".to_string(),
            Some(&bearer),
            None,
            "eth_call".to_string(),
            None,
            0,
        );
        let (status, _, outcome, response) = deny_parts(adm);
        assert_eq!(status, 401);
        assert_eq!(outcome, Outcome::AuthFailed);
        let err = response.error.unwrap();
        assert_eq!(err.code, -32000);
        assert_eq!(err.message, "Invalid API key");
    }
}

#[test]
fn test_tier_override_precedence() {
    // The pro tier allows one eth_call per minute even though the global
    // method rule would allow a hundred per second.
    let mut api_keys = StrMap::new();
    api_keys.insert(
        "k".to_string(),
        ApiKeyConfig {
            tier: SubscriptionTier::Pro,
            limits: StrMap::new(),
            enabled: true,
        },
    );
    let mut tiers = TierLimits::new();
    tiers.pro.insert("eth_call".to_string(), rule(1, "1m"));
    let mut method_limits = StrMap::new();
    method_limits.insert("eth_call".to_string(), rule(100, "1s"));
    let mut state = state_with(rule(50, "1s"), method_limits, api_keys, tiers, Vec::new());
    let bearer = HeaderValue::Ascii("Bearer k".to_string());

    let adm = admit_request(
        &mut state,
        &"10.0.0.4".to_string(),
        Some(&bearer),
        None,
        "eth_call".to_string(),
        None,
        0,
    );
    assert!(matches!(adm, Admission::Forward));
    let adm = admit_request(
        &mut state,
        &"10.0.0.4".to_string(),
        Some(&bearer),
        None,
        "eth_call".to_string(),
        None,
        0,
    );
    let (status, _, outcome, _) = deny_parts(adm);
    assert_eq!(status, 429);
    assert_eq!(outcome, Outcome::RateLimited);
}

#[test]
fn test_key_rule_beats_tier_rule() {
    // The key's own rule (two per second) governs although its tier says
    // one per minute.
    let mut key_limits = StrMap::new();
    key_limits.insert("eth_call".to_string(), rule(2, "1s"));
    let mut api_keys = StrMap::new();
    api_keys.insert(
        "k".to_string(),
        ApiKeyConfig {
            tier: SubscriptionTier::Pro,
            limits: key_limits,
            enabled: true,
        },
    );
    let mut tiers = TierLimits::new();
    tiers.pro.insert("eth_call".to_string(), rule(1, "1m"));
    let mut state = state_with(rule(50, "1s"), StrMap::new(), api_keys, tiers, Vec::new());
    let bearer = HeaderValue::Ascii("Bearer k".to_string());

    let mut allowed = 0;
    for _ in 0..3 {
        let adm = admit_request(
            &mut state,
            &"10.0.0.5".to_string(),
            Some(&bearer),
            None,
            "eth_call".to_string(),
            None,
            0,
        );
        if matches!(adm, Admission::Forward) {
            allowed += 1;
        }
    }
    assert_eq!(allowed, 2);
}

#[test]
fn test_upstream_failure_becomes_502() {
    let (response, status, outcome) = finish_forward(id_num("9"), None);
    assert_eq!(status, 502);
    assert_eq!(outcome, Outcome::UpstreamFail);
    let err = response.error.unwrap();
    assert_eq!(err.code, -32007);
    assert_eq!(err.message, "Upstream error");
    assert!(matches!(response.id, Some(JsonValue::Num(ref s)) if s == "9"));
}

#[test]
fn test_upstream_echo_round_trips_the_id() {
    // Null, number and string ids, and an absent one, all come back
    // unchanged when the upstream echoes them.
    fn make_id(kind: usize) -> Option<JsonValue> {
        match kind {
            0 => Some(JsonValue::Null),
            1 => Some(JsonValue::Num("42".to_string())),
            2 => Some(JsonValue::Str("abc".to_string())),
            _ => None,
        }
    }
    for kind in 0..4 {
        let echo = JsonRpcResponse {
            jsonrpc: "2.0".to_string(),
            result: Some(JsonValue::Str("ok".to_string())),
            error: None,
            id: make_id(kind),
        };
        let (response, status, outcome) = finish_forward(make_id(kind), Some(echo));
        assert_eq!(status, 200);
        assert_eq!(outcome, Outcome::Allowed);
        match kind {
            0 => assert!(matches!(response.id, Some(JsonValue::Null))),
            1 => assert!(matches!(response.id, Some(JsonValue::Num(ref s)) if s == "42")),
            2 => assert!(matches!(response.id, Some(JsonValue::Str(ref s)) if s == "abc")),
            _ => assert!(response.id.is_none()),
        }
    }
}

#[test]
fn test_token_consumed_even_when_upstream_fails() {
    let mut state = plain_state(rule(1, "1m"));
    let peer = "10.0.0.6".to_string();

    let adm = admit_request(
        &mut state,
        &peer,
        None,
        None,
        "eth_call".to_string(),
        None,
        0,
    );
    assert!(matches!(adm, Admission::Forward));
    let (_, status, outcome) = finish_forward(None, None);
    assert_eq!(status, 502);
    assert_eq!(outcome, Outcome::UpstreamFail);

    // The failed forward still cost the token.
    let adm = admit_request(
        &mut state,
        &peer,
        None,
        None,
        "eth_call".to_string(),
        None,
        0,
    );
    let (status, _, _, _) = deny_parts(adm);
    assert_eq!(status, 429);
}

#[test]
fn test_state_from_config() {
    let config = Config {
        server: ServerConfig {
            host: "0.0.0.0".to_string(),
            port: 8545,
        },
        rpc_backend: RpcBackendConfig {
            url: "http://localhost:8546".to_string(),
            timeout_seconds: 30,
        },
        rate_limits: RateLimitConfig {
            default_ip_limit: rule(1, "1s"),
            method_limits: StrMap::new(),
        },
        api_keys: StrMap::new(),
        api_key_tiers: TierLimits::new(),
        blocklist: BlocklistConfig {
            ips: vec!["9.9.9.9".to_string()],
            enable_auto_ban: false,
            auto_ban_threshold: 1000,
        },
        database: None,
        monitoring: MonitoringConfig {
            prometheus_port: 9090,
            log_level: "info".to_string(),
        },
    };
    let mut state = ProxyState::from_config(config);
    assert_eq!(state.rpc_backend_url, "http://localhost:8546");

    // The blocklist carried over.
    let adm = admit_request(
        &mut state,
        &"9.9.9.9".to_string(),
        None,
        None,
        "eth_call".to_string(),
        None,
        0,
    );
    let (status, _, _, _) = deny_parts(adm);
    assert_eq!(status, 403);

    // The default rule carried over: one request per second.
    let adm = admit_request(
        &mut state,
        &"8.8.8.8".to_string(),
        None,
        None,
        "eth_call".to_string(),
        None,
        0,
    );
    assert!(matches!(adm, Admission::Forward));
    let adm = admit_request(
        &mut state,
        &"8.8.8.8".to_string(),
        None,
        None,
        "eth_call".to_string(),
        None,
        0,
    );
    let (status, _, _, _) = deny_parts(adm);
    assert_eq!(status, 429);
}

#[test]
fn test_jsonrpc_error_response() {
    let resp = error_response(-32005, "Rate limit exceeded", id_num("1"));
    assert_eq!(resp.jsonrpc, "2.0");
    assert!(resp.result.is_none());
    let err = resp.error.unwrap();
    assert_eq!(err.code, -32005);
    assert_eq!(err.message, "Rate limit exceeded");
    assert!(err.data.is_none());
    assert!(matches!(resp.id, Some(JsonValue::Num(ref s)) if s == "1"));
}
