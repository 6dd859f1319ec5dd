//! The decisions of the per-target retry loop.
//!
//! The loop itself lives with the binary, which owns the clock, the socket
//! and the console: it records a start instant, and while [`should_attempt`]
//! allows it, makes one connection attempt with the whole timeout as the
//! per-attempt deadline, sleeping [`RETRY_INTERVAL_MILLIS`] between
//! attempts. Every decision the loop takes comes from here: whether another
//! attempt is allowed, and what the loop's end state means.

use vstd::prelude::*;
use crate::error::WaitError;
use crate::target::Target;

verus! {

/// The fixed pause between connection attempts, in milliseconds.
pub const RETRY_INTERVAL_MILLIS: u64 = 1000;

/// Another attempt is allowed while the elapsed time has not passed the
/// timeout.
pub open spec fn within_deadline(elapsed_millis: u64, timeout_millis: u64) -> bool {
    elapsed_millis <= timeout_millis
}

/// A timeout in seconds as milliseconds, saturating at the largest
/// representable value.
pub open spec fn millis_of_secs(timeout_secs: u64) -> u64 {
    if timeout_secs * 1000 <= u64::MAX {
        (timeout_secs * 1000) as u64
    } else {
        u64::MAX
    }
}

/// Converts a timeout in seconds to milliseconds, saturating.
pub fn secs_to_millis(timeout_secs: u64) -> (r: u64)
    ensures
        r == millis_of_secs(timeout_secs),
{
    if timeout_secs <= u64::MAX / 1000 {
        timeout_secs * 1000
    } else {
        u64::MAX
    }
}

/// The loop-head decision: attempt (another) connection exactly while the
/// elapsed wall-clock time since the first attempt has not passed the
/// timeout. The edge case follows: when an attempt itself consumes the whole
/// budget, the loop stops right after it, without a further try.
pub fn should_attempt(elapsed_millis: u64, timeout_millis: u64) -> (b: bool)
    ensures
        b == within_deadline(elapsed_millis, timeout_millis),
{
    elapsed_millis <= timeout_millis
}

impl Target {
    /// Maps the retry loop's end state to this target's outcome: success
    /// when a connection was made, else `Connect`, carrying the display
    /// name, once the deadline passed without one.
    pub fn poll_outcome(&self, connected: bool) -> (r: Result<bool, WaitError>)
        ensures
            connected ==> (r matches Ok(b) && b),
            !connected ==> (r matches Err(WaitError::Connect(n)) && n@ == self.target_name@),
    {
        if connected {
            Ok(true)
        } else {
            Err(WaitError::Connect(self.target_name.clone()))
        }
    }
}

} // verus!
