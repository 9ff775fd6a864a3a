//! The simpler webhook: a signed delivery of any event but `ping`
//! redeploys every service, or one named service.

pub mod error;
pub mod models;
pub mod routes;
pub mod validation;

pub use crate::role::validation::WebhookState;
