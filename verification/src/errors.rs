//! The error taxonomy shared by the directory service and the transfer
//! protocol. Handler-level failures become structured error responses; they
//! never abort a connection.

use vstd::prelude::*;

verus! {

/// Why an operation failed.
#[derive(Debug, Clone, Copy, PartialEq, Eq, Structural)]
pub enum ServiceError {
    /// The named member, request, update or content does not exist.
    NotFound,
    /// The caller is not the owner or recipient the operation requires.
    Unauthorized,
    /// No replica or peer answered within the time budget.
    Timeout,
    /// A disk or network transfer failed.
    IoFailure,
    /// An embedded payload was missing or corrupt.
    DecodeFailure,
    /// A fan-out call exhausted every configured replica.
    AggregateUnreachable,
}

impl ServiceError {
    /// A short human-readable description of the failure.
    pub fn message(&self) -> (r: &'static str)
        ensures
            *self is NotFound ==> r@ == "not found"@,
            *self is Unauthorized ==> r@ == "unauthorized"@,
            *self is Timeout ==> r@ == "timed out"@,
            *self is IoFailure ==> r@ == "i/o failure"@,
            *self is DecodeFailure ==> r@ == "decode failure"@,
            *self is AggregateUnreachable ==> r@ == "all replicas unreachable"@,
    {
        match self {
            ServiceError::NotFound => "not found",
            ServiceError::Unauthorized => "unauthorized",
            ServiceError::Timeout => "timed out",
            ServiceError::IoFailure => "i/o failure",
            ServiceError::DecodeFailure => "decode failure",
            ServiceError::AggregateUnreachable => "all replicas unreachable",
        }
    }
}

} // verus!
