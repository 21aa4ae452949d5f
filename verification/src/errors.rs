//! The error taxonomy of the service.

use vstd::prelude::*;

verus! {

/// What went wrong, as the service classifies it: a missing required input,
/// a credential that could not be resolved, a row that does not exist, or an
/// internal failure (storage inconsistency or a hashing-primitive error).
#[derive(Clone, Copy, PartialEq, Eq, Structural, Debug)]
pub enum ErrorKind {
    Validation,
    Unauthenticated,
    NotFound,
    Internal,
}

/// An error as surfaced to callers: its kind and a human-readable message.
#[derive(Debug)]
pub struct AppError {
    pub kind: ErrorKind,
    pub message: String,
}

impl AppError {
    pub fn new(kind: ErrorKind, message: String) -> (r: AppError)
        ensures
            r.kind == kind,
            r.message == message,
    {
        AppError { kind, message }
    }
}

} // verus!
