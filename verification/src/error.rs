//! Error taxonomy. Ledger failures are a tagged union so callers can branch
//! on the kind without string matching; the retryable kinds are the ones the
//! engine retries transparently before surfacing `TransferFailed`.

use vstd::prelude::*;

verus! {

/// Every way a ledger operation can fail.
///
/// - `InvalidArgument`: bad input (non-positive amount, self-transfer),
///   rejected before any transaction is opened.
/// - `NotFound`: a referenced account or record is absent; the transaction is
///   rolled back.
/// - `LockConflict`, `SerializationFailure`, `Timeout`: store-detected
///   conflicts; retryable.
/// - `StoreUnavailable`: connectivity failure; fatal to the call, not retried.
/// - `ConstraintViolation`: schema-level rejection (duplicate key, a value
///   outside the store's integer range); not retried.
/// - `TransferFailed`: surfaced after the retry bound is exhausted on a
///   retryable cause.
#[derive(Debug, Clone, Copy, PartialEq, Eq, Structural)]
pub enum LedgerError {
    InvalidArgument,
    NotFound,
    LockConflict,
    SerializationFailure,
    Timeout,
    StoreUnavailable,
    ConstraintViolation,
    TransferFailed,
}

/// Which failures the engine may retry: the store-detected transient
/// conflicts, and nothing else.
pub open spec fn spec_retryable(e: LedgerError) -> bool {
    e == LedgerError::LockConflict || e == LedgerError::SerializationFailure || e
        == LedgerError::Timeout
}

/// Runtime test for `spec_retryable`.
pub fn is_retryable(e: &LedgerError) -> (r: bool)
    ensures
        r == spec_retryable(*e),
{
    match e {
        LedgerError::LockConflict => true,
        LedgerError::SerializationFailure => true,
        LedgerError::Timeout => true,
        _ => false,
    }
}

/// A failure of the serving process itself, as reported to HTTP callers.
#[derive(Debug, Clone, Copy, PartialEq, Eq, Structural)]
pub enum ServerError {
    CreateAccountFail,
    ClientError(ClientError),
}

/// A failure attributable to the caller's request.
#[derive(Debug, Clone, Copy, PartialEq, Eq, Structural)]
pub enum ClientError {
    BadRequest,
    Unauthorized,
    Forbidden,
    NotFound,
    Conflict,
}

impl ClientError {
    /// The HTTP status code this client failure is reported with.
    pub fn status_code(&self) -> (r: u16)
        ensures
            r == match *self {
                ClientError::BadRequest => 400u16,
                ClientError::Unauthorized => 401u16,
                ClientError::Forbidden => 403u16,
                ClientError::NotFound => 404u16,
                ClientError::Conflict => 409u16,
            },
    {
        match self {
            ClientError::BadRequest => 400,
            ClientError::Unauthorized => 401,
            ClientError::Forbidden => 403,
            ClientError::NotFound => 404,
            ClientError::Conflict => 409,
        }
    }
}

impl ServerError {
    /// The HTTP status code this failure is reported with: client failures
    /// keep their own code, everything else is an internal server error.
    pub fn status_code(&self) -> (r: u16)
        ensures
            r == match *self {
                ServerError::CreateAccountFail => 500u16,
                ServerError::ClientError(c) => match c {
                    ClientError::BadRequest => 400u16,
                    ClientError::Unauthorized => 401u16,
                    ClientError::Forbidden => 403u16,
                    ClientError::NotFound => 404u16,
                    ClientError::Conflict => 409u16,
                },
            },
    {
        match self {
            ServerError::CreateAccountFail => 500,
            ServerError::ClientError(c) => c.status_code(),
        }
    }
}

} // verus!
