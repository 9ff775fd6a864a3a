//! Errors with which the webhook answers a request.

use vstd::prelude::*;
use vstd::string::StringExecFns;
use crate::failure::FrameworkError;

verus! {

/// Why a request is refused.
#[derive(Debug)]
pub enum Error {
    BadRequest,
    InvalidSignature,
    InvalidService,
    ForbiddenEvent,
    Actix(FrameworkError),
}

/// HTTP status with which each error is answered.
pub open spec fn error_status(e: Error) -> u16 {
    match e {
        Error::BadRequest => 400,
        Error::InvalidSignature => 403,
        Error::InvalidService => 400,
        Error::ForbiddenEvent => 400,
        Error::Actix(f) => f.status,
    }
}

/// Text shown for each error.
pub open spec fn error_message(e: Error) -> Seq<char> {
    match e {
        Error::BadRequest => "Bad request"@,
        Error::InvalidSignature => "Invalid Signature"@,
        Error::InvalidService => "Invalid service"@,
        Error::ForbiddenEvent => "Event is not allowed"@,
        Error::Actix(f) => f.message@,
    }
}

impl Error {
    /// The HTTP status of the response.
    pub fn status_code(&self) -> (res: u16)
        ensures
            res == error_status(*self),
    {
        match self {
            Error::BadRequest => 400,
            Error::InvalidSignature => 403,
            Error::InvalidService => 400,
            Error::ForbiddenEvent => 400,
            Error::Actix(f) => f.status,
        }
    }

    /// The text of the response.
    pub fn message(&self) -> (res: String)
        ensures
            res@ == error_message(*self),
    {
        match self {
            Error::BadRequest => String::from_str("Bad request"),
            Error::InvalidSignature => String::from_str("Invalid Signature"),
            Error::InvalidService => String::from_str("Invalid service"),
            Error::ForbiddenEvent => String::from_str("Event is not allowed"),
            Error::Actix(f) => f.message.clone(),
        }
    }
}

} // verus!
