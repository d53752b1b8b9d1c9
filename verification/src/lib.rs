//! A stream-multiplexing engine: up to three logical byte streams (input,
//! output, diagnostic) are carried over one ordered duplex connection by a
//! small framing protocol, and demultiplexed back into the matching local
//! stream on the far end.
//!
//! This crate holds the engine's logic — the frame and handshake codecs, the
//! router queue, the pump and writer decision rules, the target registry and
//! the session state machine — each with a verified contract. The surrounding
//! process (sockets, pipes, task spawning) drives these functions.

pub mod message;
pub mod codec;
pub mod handshake;
pub mod router;
pub mod pump;
pub mod writer;
pub mod session;
pub mod registry;
