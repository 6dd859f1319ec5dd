//! The error kinds of a run, and their human-readable messages.

use vstd::prelude::*;
use vstd::string::StringExecFns;

verus! {

/// Everything that can go fatally wrong during a run, plus the
/// control-flow signal for a configuration key that is not defined.
#[derive(Debug, PartialEq, Eq)]
pub enum WaitError {
    /// A target specification could not be resolved to a socket address;
    /// carries the specification as given.
    Resolution(String),
    /// A configuration key was looked up but is not defined; carries the key.
    /// Used as a control-flow signal when probing optional keys.
    MissingVariable(String),
    /// No rule yielded any target to poll.
    NoTargets,
    /// A target never became reachable within its timeout; carries the
    /// target's display name.
    Connect(String),
}

impl WaitError {
    /// The single line of text that describes this error.
    pub open spec fn spec_message(self) -> Seq<char> {
        match self {
            WaitError::Resolution(s) => "Failed to parse: "@ + s@,
            WaitError::MissingVariable(k) => "Variable "@ + k@ + " does not exist"@,
            WaitError::NoTargets => "Cannot find any targets to poll"@,
            WaitError::Connect(n) => "Failed to connect to: "@ + n@,
        }
    }

    /// Renders the error as one line of text, for the error stream.
    pub fn message(&self) -> (m: String)
        ensures
            m@ == self.spec_message(),
    {
        match self {
            WaitError::Resolution(s) => "Failed to parse: ".to_owned().concat(s.as_str()),
            WaitError::MissingVariable(k) => "Variable ".to_owned().concat(k.as_str()).concat(
                " does not exist",
            ),
            WaitError::NoTargets => "Cannot find any targets to poll".to_owned(),
            WaitError::Connect(n) => "Failed to connect to: ".to_owned().concat(n.as_str()),
        }
    }
}

} // verus!
