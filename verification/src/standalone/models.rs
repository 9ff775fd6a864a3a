//! A push delivery, as the simpler webhook describes it.

use vstd::prelude::*;

verus! {

/// Who pushed.
pub struct User {
    pub email: Option<String>,
    pub name: String,
}

/// A push of commits.
pub struct PushPayload {
    pub after: String,
    pub pusher: User,
    pub ref_: String,
}

} // verus!
