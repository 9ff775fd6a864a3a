//! An error raised by the web framework while reading a request or
//! building a response, kept as the two things the webhook reads of it.

use vstd::prelude::*;

verus! {

/// The HTTP status that the framework gives the error, and its message.
#[derive(Debug)]
pub struct FrameworkError {
    pub status: u16,
    pub message: String,
}

} // verus!
