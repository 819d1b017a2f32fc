//! Styx: a connection-oriented, reliable, in-order message transport
//! layered on an unreliable datagram substrate.
//!
//! This crate holds the protocol core: the segment codec, the connection
//! state machine, the Go-Back-N sender, the cumulative receiver, and the
//! handshake and teardown drivers' decision logic. Everything here is
//! verified; the datagram I/O that carries the segments lives outside.

pub mod connection;
pub mod error;
pub mod handshake;
pub mod packet;
pub mod receiver;
pub mod seqnum;
pub mod sender;
pub mod state;
pub mod teardown;
