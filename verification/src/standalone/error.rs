//! Errors with which the simpler webhook answers a request.

use vstd::prelude::*;
use vstd::string::StringExecFns;
use crate::failure::FrameworkError;

verus! {

/// Why a request is refused.
#[derive(Debug)]
pub enum Error {
    InvalidSignature,
    ServiceNotFound,
    Actix(FrameworkError),
}

/// HTTP status with which each error is answered.
pub open spec fn error_status(e: Error) -> u16 {
    match e {
        Error::InvalidSignature => 403,
        Error::ServiceNotFound => 404,
        Error::Actix(f) => f.status,
    }
}

/// Text shown for each error.
pub open spec fn error_message(e: Error) -> Seq<char> {
    match e {
        Error::InvalidSignature => "Invalid Signature"@,
        Error::ServiceNotFound => "Service not found"@,
        Error::Actix(f) => f.message@,
    }
}

impl Error {
    /// The HTTP status of the response.
    pub fn status_code(&self) -> (res: u16)
        ensures
            res == error_status(*self),
    {
        match self {
            Error::InvalidSignature => 403,
            Error::ServiceNotFound => 404,
            Error::Actix(f) => f.status,
        }
    }

    /// The text of the response.
    pub fn message(&self) -> (res: String)
        ensures
            res@ == error_message(*self),
    {
        match self {
            Error::InvalidSignature => String::from_str("Invalid Signature"),
            Error::ServiceNotFound => String::from_str("Service not found"),
            Error::Actix(f) => f.message.clone(),
        }
    }
}

} // verus!
