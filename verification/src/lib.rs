//! A shared string stack behind a one-byte command protocol.
//!
//! The crate holds the protocol and the stack; the transport that carries the
//! bytes lives elsewhere and drives the [`session`] one event at a time.

pub mod laws;
pub mod payload;
pub mod protocol;
pub mod session;
pub mod stack;
