//! JSON-RPC 2.0: message types and request handling.
pub mod handler;
pub mod read;
pub mod types;
