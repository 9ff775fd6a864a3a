//! The deliveries that trigger a redeployment: a published package or a push.

use vstd::prelude::*;

verus! {

/// A published package.
#[derive(Debug)]
pub struct Package {
    pub name: String,
    pub html_url: String,
    pub updated_at: Option<String>,
}

/// What happened to a package.
#[derive(Debug)]
pub enum Action {
    Published { package: Package, repository: Repository },
}

/// The repository a delivery comes from.
#[derive(Debug)]
pub struct Repository {
    pub full_name: String,
    pub html_url: String,
    pub default_branch: String,
}

/// A push of commits.
#[derive(Debug)]
pub struct Push {
    pub repository: Repository,
    pub ref_: String,
    pub after: String,
    /// Identifiers of the pushed commits.
    pub commits: Vec<String>,
}

/// A delivery the webhook acts on.
#[derive(Debug)]
pub enum Payload {
    Action(Action),
    Push(Push),
}

} // verus!
