//! The error messages, one line each.

use waitfor::config::{Config, EnvConfig};
use waitfor::error::WaitError;

#[test]
fn test_error_messages() {
    assert_eq!(
        WaitError::Resolution("bad:spec".to_string()).message(),
        "Failed to parse: bad:spec".to_string()
    );
    assert_eq!(
        WaitError::MissingVariable("WAIT_TARGETS".to_string()).message(),
        "Variable WAIT_TARGETS does not exist".to_string()
    );
    assert_eq!(
        WaitError::NoTargets.message(),
        "Cannot find any targets to poll".to_string()
    );
    assert_eq!(
        WaitError::Connect("127.0.0.1:8000".to_string()).message(),
        "Failed to connect to: 127.0.0.1:8000".to_string()
    );
}

#[test]
fn test_env_config_follows_the_same_rules() {
    // The environment adapter reads from captured pairs exactly as the
    // synthetic source does.
    let config = EnvConfig::new(vec![(
        "WAIT_TARGETS".to_string(),
        "127.0.0.1:8000".to_string(),
    )]);
    let targets = config.get_all_targets().unwrap();
    assert_eq!(targets.len(), 1);
    assert_eq!(targets[0].target_name, "127.0.0.1:8000".to_string());
    assert!(config.var("WAIT_TARGETS") == Ok("127.0.0.1:8000".to_string()));
}
