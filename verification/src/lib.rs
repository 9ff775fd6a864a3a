//! Verified core of a GitHub deployment webhook.

pub mod text;
pub mod config;
pub mod headers;
pub mod signature;
pub mod failure;
pub mod role;
pub mod standalone;
