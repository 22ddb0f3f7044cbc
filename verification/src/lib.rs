//! A verified core for a client of the Chrome DevTools Protocol.
//!
//! The crate holds everything that such a client decides and nothing that
//! it waits for: how an outgoing call is numbered and written, how an
//! inbound frame is told apart as a response or an event, which waiting
//! caller a response belongs to, and what becomes of the callers when the
//! receiving side stops. The host program owns the socket, the threads and
//! the lock. It hands what it reads to a [`connection::Connection`] and
//! carries out what comes back.
//!
//! - [`cdtp`]: the envelopes of the protocol, read from and written to text
//!   frames.
//! - [`waiting_call_registry`]: the slots in which calls wait for their
//!   responses.
//! - [`connection`]: the connection itself, with its dispatcher.
//! - [`guarantees`]: what is proved of every run of a connection.
//! - [`json`]: the boundary to `serde_json`.
//! - [`errors`]: the errors, by who sees them.

pub mod cdtp;
pub mod connection;
pub mod errors;
pub mod guarantees;
pub mod json;
pub mod waiting_call_registry;
