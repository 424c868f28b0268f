//! Library-wide error type.

use vstd::prelude::*;

verus! {

/// Errors reported by the host core (the caller maps them to wire/HTTP errors).
#[derive(Debug, Clone, PartialEq, Eq)]
pub enum AppError {
    /// Caller-supplied input is malformed or out of range.
    InvalidInput(String),
    /// The addressed object does not exist.
    NotFound(String),
    /// Unexpected internal failure.
    Internal(String),
    /// Failure reported by a platform plugin bridge.
    Plugin(String),
    /// The caller is not authorized.
    Auth(String),
    /// WebSocket transport failure.
    WebSocket(String),
    /// Storage I/O failure (message of the underlying error).
    Io(String),
}

} // verus!
