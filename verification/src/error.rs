//! The error discipline of the service: every failure is one of six kinds,
//! and each kind maps to exactly one HTTP status code.

use vstd::prelude::*;

verus! {

/// The kind of a request failure.
#[derive(Clone, Copy, Debug, PartialEq, Eq, Structural)]
pub enum ErrorKind {
    /// The payload was invalid.
    Validation,
    /// The bearer token was missing or bad.
    Authentication,
    /// The caller is not allowed to do this.
    Authorization,
    /// The named object is unknown.
    NotFound,
    /// The object is in a state that forbids the operation.
    Conflict,
    /// Any other failure.
    Internal,
}

/// A failure carrying its kind and a human-readable message.
#[derive(Debug)]
pub struct ApiError {
    pub kind: ErrorKind,
    pub msg: String,
}

/// The HTTP status code that a given error kind is surfaced as.
pub open spec fn spec_status_of(kind: ErrorKind) -> u16 {
    match kind {
        ErrorKind::Validation => 400,
        ErrorKind::Authentication => 401,
        ErrorKind::Authorization => 403,
        ErrorKind::NotFound => 404,
        ErrorKind::Conflict => 409,
        ErrorKind::Internal => 500,
    }
}

impl ApiError {
    pub fn new(kind: ErrorKind, msg: String) -> (r: ApiError)
        ensures
            r.kind == kind,
            r.msg == msg,
    {
        ApiError { kind, msg }
    }

    /// The HTTP status code this error is surfaced as.
    pub fn status(&self) -> (r: u16)
        ensures
            r == spec_status_of(self.kind),
    {
        match self.kind {
            ErrorKind::Validation => 400,
            ErrorKind::Authentication => 401,
            ErrorKind::Authorization => 403,
            ErrorKind::NotFound => 404,
            ErrorKind::Conflict => 409,
            ErrorKind::Internal => 500,
        }
    }
}

} // verus!
