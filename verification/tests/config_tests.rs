//! The discovery and timeout rules, driven through a synthetic
//! configuration source.

use waitfor::config::{Config, MockEnvConfig, TimeoutResolution, DEFAULT_TIMEOUT};
use waitfor::error::WaitError;
use waitfor::target::Target;

fn config_of(pairs: &[(&str, &str)]) -> MockEnvConfig {
    let mut entries: Vec<(String, String)> = Vec::new();
    for (k, v) in pairs {
        entries.push((k.to_string(), v.to_string()));
    }
    MockEnvConfig::new(entries)
}

#[test]
fn test_get_wait_target() {
    let config = config_of(&[("WAIT_TARGETS", "127.0.0.1:8000,127.0.0.1:8001")]);
    let expected: Vec<Target> = vec![
        Target::try_from("127.0.0.1:8000").unwrap(),
        Target::try_from("127.0.0.1:8001").unwrap(),
    ];
    assert!(config.get_targets() == Ok(expected));
}

#[test]
fn test_get_target() {
    let config = config_of(&[("TARGETS", "127.0.0.1:8000,127.0.0.1:8001")]);
    let expected: Vec<Target> = vec![
        Target::try_from("127.0.0.1:8000").unwrap(),
        Target::try_from("127.0.0.1:8001").unwrap(),
    ];
    assert!(config.get_targets() == Ok(expected));
}

#[test]
fn test_get_both_targets() {
    // TARGETS should be ignored: WAIT_TARGETS takes precedence.
    let config = config_of(&[
        ("WAIT_TARGETS", "127.0.0.1:8000,127.0.0.1:8001"),
        ("TARGETS", "127.0.0.1:8002,127.0.0.1:8003"),
    ]);
    let expected: Vec<Target> = vec![
        Target::try_from("127.0.0.1:8000").unwrap(),
        Target::try_from("127.0.0.1:8001").unwrap(),
    ];
    assert!(config.get_targets() == Ok(expected));
}

#[test]
fn test_get_linked_container_targets() {
    let config = config_of(&[("DB_PORT_5432_TCP", "tcp://172.17.0.5:5432")]);
    let expected: Vec<Target> = vec![Target::try_from("172.17.0.5:5432").unwrap()];
    assert!(config.get_linked_container_targets() == Ok(expected));
}

#[test]
fn test_get_timeout_default() {
    let config = config_of(&[]);
    let expected = DEFAULT_TIMEOUT;
    assert!(config.get_timeout() == expected);
}

#[test]
fn test_get_timeout() {
    // TIMEOUT should be ignored: WAIT_TIMEOUT takes precedence.
    let config = config_of(&[("WAIT_TIMEOUT", "8"), ("TIMEOUT", "10")]);
    let expected: u64 = 8;
    assert!(config.get_timeout() == expected);
}

#[test]
fn test_get_timeout_invalid() {
    let config = config_of(&[("WAIT_TIMEOUT", "invalid")]);
    let expected = DEFAULT_TIMEOUT;
    assert!(config.get_timeout() == expected);
}

#[test]
fn test_get_timeout_fallback_variable() {
    let config = config_of(&[("TIMEOUT", "10")]);
    assert_eq!(config.get_timeout(), 10);
}

#[test]
fn test_get_timeout_zero() {
    let config = config_of(&[("WAIT_TIMEOUT", "0")]);
    assert_eq!(config.get_timeout(), 0);
}

#[test]
fn test_get_timeout_large_values() {
    // Anything a u64 holds is a valid number of seconds.
    let config = config_of(&[("WAIT_TIMEOUT", "10000000000000000000")]);
    assert_eq!(config.get_timeout(), 10000000000000000000);
    let config = config_of(&[("TIMEOUT", "18446744073709551615")]);
    assert_eq!(config.get_timeout(), u64::MAX);
    // One past u64::MAX does not parse and falls back to the default.
    let config = config_of(&[("WAIT_TIMEOUT", "18446744073709551616")]);
    assert_eq!(config.get_timeout(), DEFAULT_TIMEOUT);
}

#[test]
fn test_get_timeout_lenient_forms() {
    // A leading plus sign and leading zeros parse, as a plain integer
    // parse accepts them.
    let config = config_of(&[("WAIT_TIMEOUT", "+8")]);
    assert_eq!(config.get_timeout(), 8);
    let config = config_of(&[("WAIT_TIMEOUT", "00000000000000000000008")]);
    assert_eq!(config.get_timeout(), 8);
    // But not a sign alone, a doubled sign, or a minus.
    for bad in ["+", "++8", "-8", "8 "] {
        let config = config_of(&[("WAIT_TIMEOUT", bad)]);
        assert_eq!(config.get_timeout(), DEFAULT_TIMEOUT);
    }
}

#[test]
fn test_resolve_timeout_reports_source() {
    assert_eq!(
        config_of(&[("WAIT_TIMEOUT", "8")]).resolve_timeout(),
        TimeoutResolution::Parsed(8)
    );
    assert_eq!(
        config_of(&[("WAIT_TIMEOUT", "8s")]).resolve_timeout(),
        TimeoutResolution::Invalid("8s".to_string())
    );
    assert_eq!(config_of(&[]).resolve_timeout(), TimeoutResolution::Unset);
}

#[test]
fn test_get_targets_empty_when_undefined() {
    let config = config_of(&[("UNRELATED", "value")]);
    assert!(config.get_targets() == Ok(Vec::new()));
}

#[test]
fn test_get_targets_bad_spec_aborts() {
    let config = config_of(&[("WAIT_TARGETS", "127.0.0.1:8000,bad")]);
    assert!(config.get_targets() == Err(WaitError::Resolution("bad".to_string())));
}

#[test]
fn test_get_targets_empty_value_fails() {
    // A defined but empty list splits into one empty spec, which never
    // resolves.
    let config = config_of(&[("WAIT_TARGETS", "")]);
    assert!(config.get_targets() == Err(WaitError::Resolution("".to_string())));
}

#[test]
fn test_linked_targets_keep_enumeration_order() {
    let config = config_of(&[
        ("DB_PORT_5432_TCP", "tcp://172.17.0.5:5432"),
        ("WEB_PORT_80_TCP", "tcp://172.17.0.6:80"),
        ("NOT_A_LINK", "tcp://172.17.0.7:81"),
    ]);
    let expected: Vec<Target> = vec![
        Target::try_from("172.17.0.5:5432").unwrap(),
        Target::try_from("172.17.0.6:80").unwrap(),
    ];
    assert!(config.get_linked_container_targets() == Ok(expected));
}

#[test]
fn test_linked_target_short_value_fails() {
    let config = config_of(&[("DB_PORT_5432_TCP", "tcp:")]);
    assert!(
        config.get_linked_container_targets() == Err(WaitError::Resolution("".to_string()))
    );
}

#[test]
fn test_get_all_targets_no_rule_matches() {
    let config = config_of(&[("UNRELATED", "value")]);
    assert!(config.get_all_targets() == Err(WaitError::NoTargets));
}

#[test]
fn test_get_all_targets_explicit_wins_over_linked() {
    let config = config_of(&[
        ("WAIT_TARGETS", "127.0.0.1:8000"),
        ("DB_PORT_5432_TCP", "tcp://172.17.0.5:5432"),
    ]);
    let expected: Vec<Target> = vec![Target::try_from("127.0.0.1:8000").unwrap()];
    assert!(config.get_all_targets() == Ok(expected));
}

#[test]
fn test_get_all_targets_falls_back_to_linked() {
    let config = config_of(&[("DB_PORT_5432_TCP", "tcp://172.17.0.5:5432")]);
    let expected: Vec<Target> = vec![Target::try_from("172.17.0.5:5432").unwrap()];
    assert!(config.get_all_targets() == Ok(expected));
}

#[test]
fn test_var_lookup() {
    let config = config_of(&[("A", "1"), ("B", "2")]);
    assert!(config.var("B") == Ok("2".to_string()));
    assert!(config.var("C") == Err(WaitError::MissingVariable("C".to_string())));
}

#[test]
fn test_var_first_match_wins() {
    let config = config_of(&[("A", "first"), ("A", "second")]);
    assert!(config.var("A") == Ok("first".to_string()));
}

#[test]
fn test_vars_round_trip() {
    let pairs = vec![
        ("A".to_string(), "1".to_string()),
        ("B".to_string(), "2".to_string()),
    ];
    let config = MockEnvConfig::new(pairs.clone());
    assert_eq!(config.vars(), pairs);
}

#[test]
fn test_run_plan_combines_targets_and_timeout() {
    let config = config_of(&[("WAIT_TARGETS", "127.0.0.1:8000"), ("WAIT_TIMEOUT", "8")]);
    let expected = (vec![Target::try_from("127.0.0.1:8000").unwrap()], 8u64);
    assert!(waitfor::config::run_plan(&config) == Ok(expected));
}

#[test]
fn test_run_plan_discovery_failure_aborts() {
    let config = config_of(&[("WAIT_TIMEOUT", "8")]);
    assert!(waitfor::config::run_plan(&config) == Err(WaitError::NoTargets));
}
