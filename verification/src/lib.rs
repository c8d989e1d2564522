//! Verified core of a validator-side bridge orchestrator.
//!
//! The library decodes bridge-contract log records into typed domain events,
//! merges them into one nonce-ordered claim stream, computes scan windows and
//! finality delays for the oracle loop, builds signed confirmations for
//! outbound artifacts, and drives the oracle and signer loops as explicit
//! state machines.  All chain I/O stays with the caller, which feeds plain
//! values in and carries actions out.

pub mod bytesutil;
pub mod commands;
pub mod confirm;
pub mod error;
pub mod events;
pub mod main_loop;
pub mod merge;
pub mod oracle;
pub mod submit;
pub mod types;
