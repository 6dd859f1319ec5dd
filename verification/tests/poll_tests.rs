//! The retry-loop decisions, driven with a simulated clock.

use waitfor::error::WaitError;
use waitfor::poll::{secs_to_millis, should_attempt, RETRY_INTERVAL_MILLIS};
use waitfor::target::Target;

/// Drives the retry loop as the binary does, against a scripted sequence of
/// attempt outcomes; each failed attempt costs one sleep on the simulated
/// clock. Returns the outcome and the simulated time at exit.
fn simulate_poll(target: &Target, timeout_secs: u64, outcomes: &[bool]) -> (Result<bool, WaitError>, u64) {
    let timeout_millis = secs_to_millis(timeout_secs);
    let mut elapsed: u64 = 0;
    let mut attempt: usize = 0;
    let mut found = false;
    while should_attempt(elapsed, timeout_millis) {
        let connected = attempt < outcomes.len() && outcomes[attempt];
        attempt += 1;
        if connected {
            found = true;
            break;
        }
        elapsed += RETRY_INTERVAL_MILLIS;
    }
    (target.poll_outcome(found), elapsed)
}

#[test]
fn test_poll_never_connectable_times_out() {
    let target = Target::try_from("127.0.0.1:8000").unwrap();
    let (outcome, elapsed) = simulate_poll(&target, 2, &[]);
    assert_eq!(
        outcome,
        Err(WaitError::Connect("127.0.0.1:8000".to_string()))
    );
    // The loop stops as soon as the elapsed time passes the timeout: with
    // attempts at 0, 1 and 2 seconds, just after the two-second mark.
    assert_eq!(elapsed, 3000);
}

#[test]
fn test_poll_connects_after_one_retry() {
    let target = Target::try_from("127.0.0.1:8000").unwrap();
    let (outcome, elapsed) = simulate_poll(&target, 30, &[false, true]);
    assert_eq!(outcome, Ok(true));
    // One retry: well within the timeout.
    assert_eq!(elapsed, RETRY_INTERVAL_MILLIS);
    assert!(elapsed <= secs_to_millis(30));
}

#[test]
fn test_should_attempt_boundary() {
    assert!(should_attempt(0, 2000));
    assert!(should_attempt(2000, 2000));
    assert!(!should_attempt(2001, 2000));
}

#[test]
fn test_secs_to_millis() {
    assert_eq!(secs_to_millis(0), 0);
    assert_eq!(secs_to_millis(30), 30000);
    assert_eq!(secs_to_millis(u64::MAX), u64::MAX);
}

#[test]
fn test_poll_outcome() {
    let target = Target::try_from("10.0.0.1:80").unwrap();
    assert_eq!(target.poll_outcome(true), Ok(true));
    assert_eq!(
        target.poll_outcome(false),
        Err(WaitError::Connect("10.0.0.1:80".to_string()))
    );
}
