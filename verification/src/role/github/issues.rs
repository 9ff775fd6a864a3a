//! Bodies of the requests sent to GitHub's issue API, and the issues it lists.

use vstd::prelude::*;

verus! {

/// A new issue.
pub struct PostIssueBody {
    pub title: String,
    pub body: String,
    pub assignees: Vec<String>,
    pub labels: Vec<String>,
}

/// A request or answer without content.
pub struct EmptyBody {}

/// An issue as GitHub lists it.
#[derive(Clone)]
pub struct OpenIssueBody {
    pub number: u32,
    pub title: String,
    pub labels: Vec<String>,
}

/// A comment on an issue.
pub struct IssueCommentBody {
    pub body: String,
}

/// A change of an issue's state.
pub struct UpdateIssueBody {
    pub state: String,
}

} // verus!
