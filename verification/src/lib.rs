//! Runtime environment registry: environments, worker pools, release
//! promotion and rollback, configuration sync, validation and drift checks.
//!
//! Every operation of the registry is a verified function whose contract is
//! stated over the mathematical view of the registry (`ServerView`).
pub mod types;
pub mod text;
pub mod outside;
pub mod model;
pub mod server;
pub mod laws;
