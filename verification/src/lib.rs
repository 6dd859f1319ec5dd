//! Blocks startup of a dependent process until a set of network endpoints
//! accepts TCP connections, or until a timeout elapses.
//!
//! The crate holds the logic of that tool: deriving the ordered list of
//! targets from an environment-like configuration, resolving the per-target
//! timeout, parsing textual `host:port` specifications, and the decisions of
//! the per-target retry loop. The actual connection attempts, the clock and
//! the console belong to the surrounding binary, which feeds their results
//! back into these functions as plain values.

pub mod config;
pub mod error;
pub mod poll;
pub mod target;
pub mod text;

pub use error::WaitError;
