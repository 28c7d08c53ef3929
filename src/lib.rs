//! Vault lifecycle management for an encrypted-filesystem daemon.
//!
//! `vault_handler` holds the per-vault state machine and the durable vault
//! records; `daemon` holds the control-service side: request validation and
//! the closed set of error kinds that cross the RPC boundary.

pub mod vault_handler;
pub mod daemon;
