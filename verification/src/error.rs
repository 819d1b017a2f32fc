//! The failures a Styx endpoint can surface to its caller.

use vstd::prelude::*;

verus! {

/// A typed failure of the transport.
#[derive(Debug, Clone, Copy, PartialEq, Eq, Structural)]
pub enum StyxError {
    /// The wire bytes are shorter than a header or carry reserved flag bits.
    MalformedSegment,
    /// A well-formed segment arrived in a state that disallows it.
    ProtocolViolation,
    /// The three-way handshake timed out or saw a mismatched acknowledgment.
    HandshakeFailed,
    /// The four-way teardown timed out or saw a mismatched acknowledgment.
    TeardownFailed,
    /// The underlying datagram send or receive failed (other than a timeout).
    TransportIOError,
}

impl StyxError {
    /// A short human-readable account of the failure.
    pub fn message(&self) -> (m: &'static str)
        ensures
            m@.len() > 0,
    {
        let m = match self {
            StyxError::MalformedSegment => "segment too short or reserved flag bits set",
            StyxError::ProtocolViolation => "segment not allowed in the current state",
            StyxError::HandshakeFailed => "handshake timed out or was acknowledged wrongly",
            StyxError::TeardownFailed => "teardown timed out or was acknowledged wrongly",
            StyxError::TransportIOError => "datagram transport failed",
        };
        proof {
            reveal_strlit("segment too short or reserved flag bits set");
            reveal_strlit("segment not allowed in the current state");
            reveal_strlit("handshake timed out or was acknowledged wrongly");
            reveal_strlit("teardown timed out or was acknowledged wrongly");
            reveal_strlit("datagram transport failed");
        }
        m
    }
}

} // verus!
