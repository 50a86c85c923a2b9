//! Requests to servers.

pub mod api_key;
pub mod message;

pub use api_key::ApiKey;
