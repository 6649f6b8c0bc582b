use rpc_shield::config::LimitRule;
use rpc_shield::quota::{parse_duration, parse_limit_rule, ConfigError};

#[test]
fn test_parse_duration() {
    assert_eq!(parse_duration("1s").unwrap(), 1);
    assert_eq!(parse_duration("5m").unwrap(), 300);
    assert_eq!(parse_duration("2h").unwrap(), 7200);
}

#[test]
fn test_parse_duration_rejects_missing_or_unknown_unit() {
    assert_eq!(parse_duration(""), Err(ConfigError::BadPeriodUnit));
    assert_eq!(parse_duration("10x"), Err(ConfigError::BadPeriodUnit));
    assert_eq!(parse_duration("10"), Err(ConfigError::BadPeriodUnit));
}

#[test]
fn test_parse_duration_rejects_bad_numbers() {
    assert_eq!(parse_duration("s"), Err(ConfigError::BadPeriodNumber));
    assert_eq!(parse_duration("0s"), Err(ConfigError::BadPeriodNumber));
    assert_eq!(parse_duration("1a2s"), Err(ConfigError::BadPeriodNumber));
    assert_eq!(
        parse_duration("99999999999999999999s"),
        Err(ConfigError::BadPeriodNumber)
    );
    assert_eq!(
        parse_duration("999999999999999999m"),
        Err(ConfigError::BadPeriodNumber)
    );
}

#[test]
fn test_parse_limit_rule_quota() {
    let rule = LimitRule {
        requests: 100,
        period: "1m".to_string(),
    };
    let q = parse_limit_rule(&rule).unwrap();
    assert_eq!(q.burst, 100);
    assert_eq!(q.period_secs, 60);
}

#[test]
fn test_parse_limit_rule_rejects_zero_requests() {
    let rule = LimitRule {
        requests: 0,
        period: "1s".to_string(),
    };
    assert_eq!(parse_limit_rule(&rule), Err(ConfigError::ZeroRequests));
}
