//! Signaling relay core: token validation with a key cache, room membership
//! and connection metadata, per-connection peer sessions, and the protocol
//! router that decides what each inbound frame does.
pub mod auth;
pub mod jwt;
pub mod message;
pub mod peer;
pub mod server;
pub mod store;
pub mod tables;
