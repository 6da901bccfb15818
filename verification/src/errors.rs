//! The error taxonomy: expected, caller-recoverable outcomes are kept
//! apart from infrastructure failures, and nothing here is retried.

use vstd::prelude::*;

verus! {

/// Every operation of the library fails with one of these.
#[derive(PartialEq, Eq, Structural, Clone, Copy, Debug)]
pub enum Error {
    /// No row for the requested id or combination.
    NotFound,
    /// A uniqueness rule was violated, such as a second comment by the
    /// same user on the same location outside the upsert path.
    Conflict,
    /// An ownership check failed on an update.
    PermissionDenied,
    /// Malformed filter or pagination input.
    ValidationError,
    /// A storage failure; not recoverable within the operation.
    StorageError,
    /// The connection pool was exhausted or timed out.
    ConnectionUnavailable,
}

impl Error {
    /// The status code a boundary maps this error to: permission failures
    /// are forbidden, conflicts and bad input are bad requests, and every
    /// infrastructure failure is an internal error.
    pub fn status_code(&self) -> (r: u16)
        ensures
            r == match self {
                Error::PermissionDenied => 403u16,
                Error::Conflict => 400u16,
                Error::ValidationError => 400u16,
                _ => 500u16,
            },
    {
        match self {
            Error::PermissionDenied => 403,
            Error::Conflict => 400,
            Error::ValidationError => 400,
            _ => 500,
        }
    }

    /// Whether the caller can act on this error, as opposed to an
    /// infrastructure failure.
    pub fn is_recoverable(&self) -> (r: bool)
        ensures
            r == !(self is StorageError || self is ConnectionUnavailable),
    {
        match self {
            Error::StorageError => false,
            Error::ConnectionUnavailable => false,
            _ => true,
        }
    }
}

} // verus!
