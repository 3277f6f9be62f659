//! How an operation ends when it does not succeed.

use vstd::prelude::*;

verus! {

/// An error that an operation reports to the caller as its own.
pub trait ApiError {
    /// The HTTP status that goes with the error.
    spec fn spec_status_code(&self) -> u16;

    /// The HTTP status that goes with the error.
    fn status_code(&self) -> (code: u16)
        ensures
            code == self.spec_status_code(),
    ;
}

impl ApiError for () {
    open spec fn spec_status_code(&self) -> u16 {
        500
    }

    fn status_code(&self) -> (code: u16) {
        500
    }
}

/// Why an operation did not succeed.
#[derive(Debug)]
pub enum Failure<E> {
    /// An error of the operation's own.
    Expected(E),
    /// The caller's input was refused, with the reason.
    BadRequest(&'static str),
    /// Contention or a fault of the store; no detail is given away.
    Unexpected,
}

impl<E: ApiError> Failure<E> {
    /// The HTTP status that goes with the failure.
    pub open spec fn spec_status_code(&self) -> u16 {
        match self {
            Failure::Expected(error) => error.spec_status_code(),
            Failure::BadRequest(_) => 400,
            Failure::Unexpected => 500,
        }
    }

    /// The HTTP status that goes with the failure.
    pub fn status_code(&self) -> (code: u16)
        ensures
            code == self.spec_status_code(),
    {
        match self {
            Failure::Expected(error) => error.status_code(),
            Failure::BadRequest(_) => 400,
            Failure::Unexpected => 500,
        }
    }
}

} // verus!
