//! Verified core of a background job runner that relays queued mail over SMTP.

pub mod app_state;
pub mod auth_mechanism;
pub mod cli;
pub mod error;
pub mod queue;
pub mod smtp_credential;
pub mod smtp_server;
pub mod text;
