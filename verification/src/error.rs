//! The error taxonomy of the mutation layer, and its mapping to HTTP status
//! codes.

use vstd::prelude::*;

verus! {

/// Why a mutating or reading operation was refused.
///
/// Storage-layer failures are always surfaced as the opaque `InternalError`;
/// the remaining variants are business-rule refusals that a client can react
/// to programmatically.
#[derive(Clone, Copy, Debug, PartialEq, Eq, Structural)]
pub enum ApiError {
    /// The addressed resource (or the merge source) does not exist.
    NotFound,
    /// The idempotency-token claim was lost to a concurrent caller.
    Conflict,
    /// A conditional write carried a stale fingerprint.
    PreconditionFailed,
    /// An update supplied no fields to change.
    BadRequest,
    /// The presented idempotency token is not in the ledger.
    Unauthorized,
    /// A storage or serialization failure, reported opaquely.
    InternalError,
}

impl ApiError {
    /// The HTTP status code a handler reports for this error.
    pub fn status_u16(&self) -> (code: u16)
        ensures
            code == self.spec_status(),
    {
        match self {
            ApiError::NotFound => 404,
            ApiError::Conflict => 409,
            ApiError::PreconditionFailed => 412,
            ApiError::BadRequest => 400,
            ApiError::Unauthorized => 401,
            ApiError::InternalError => 500,
        }
    }

    pub open spec fn spec_status(&self) -> u16 {
        match self {
            ApiError::NotFound => 404,
            ApiError::Conflict => 409,
            ApiError::PreconditionFailed => 412,
            ApiError::BadRequest => 400,
            ApiError::Unauthorized => 401,
            ApiError::InternalError => 500,
        }
    }
}

} // verus!
