//! Credential profiles read from the shared credentials and config files,
//! and the token-stream helpers used to read XML error responses.
pub mod config;
pub mod grammar;
pub mod provider;
pub mod store;
pub mod text;
pub mod xmlerror;
pub mod xmlutil;
