//! The webhook that redeploys services through shell commands, skips
//! redeliveries and reports failed deployments as GitHub issues.

pub mod error;
pub mod github;
pub mod log;
pub mod restart;
pub mod routes;
pub mod validation;
