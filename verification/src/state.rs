//! The connection state machine: ten named states, the events that move
//! a connection between them, and the side effect each legal transition
//! asks for. The transition table is the single authoritative legality
//! check; everything else consults it.

use vstd::prelude::*;

verus! {

/// The lifecycle state of a Styx connection.
#[derive(Debug, Clone, Copy, PartialEq, Eq, Structural)]
pub enum ConnectionState {
    /// The connection is closed.
    Closed,
    /// The server is waiting for a connection.
    Listen,
    /// The client has sent a SYN and is waiting for a SYN+ACK.
    SynSent,
    /// The server has received a SYN and sent a SYN+ACK, waiting for the
    /// final ACK.
    SynReceived,
    /// The handshake is complete and data may flow.
    Established,
    /// The active closer has sent a FIN and is waiting for its ACK.
    FinWait1,
    /// The active closer has seen its FIN acknowledged and is waiting for
    /// the peer's FIN.
    FinWait2,
    /// The passive closer has acknowledged the peer's FIN and will send
    /// its own FIN once the application closes.
    CloseWait,
    /// The passive closer has sent its FIN and is waiting for the final
    /// ACK.
    LastAck,
    /// The active closer lingers to absorb a duplicate final ACK.
    TimeWait,
}

/// An event a connection reacts to.
#[derive(Debug, Clone, Copy, PartialEq, Eq, Structural)]
pub enum Event {
    /// The application asks for an active open.
    ActiveOpen,
    /// A segment with flags exactly SYN arrived.
    RecvSyn,
    /// A SYN+ACK arrived whose acknowledgment matches our SYN.
    RecvValidSynAck,
    /// An ACK arrived whose acknowledgment matches our SYN+ACK.
    RecvValidAckOfSyn,
    /// The handshake timed out or a validation failed.
    HandshakeFailure,
    /// The application asks to close.
    AppClose,
    /// A segment with flags exactly FIN arrived.
    RecvFin,
    /// An ACK arrived whose acknowledgment matches our FIN.
    RecvAckOfFin,
    /// The TIME_WAIT linger period has elapsed.
    TimeWaitElapsed,
}

/// The side effect a transition asks the endpoint to perform.
#[derive(Debug, Clone, Copy, PartialEq, Eq, Structural)]
pub enum Action {
    /// Send a SYN carrying our initial sequence number.
    SendSyn,
    /// Send a SYN+ACK answering the peer's SYN.
    SendSynAck,
    /// Send a plain ACK.
    SendAck,
    /// Send a FIN.
    SendFin,
    /// Abort: destroy the partial connection.
    Abort,
    /// Discard the partial connection and keep listening.
    DiscardPartial,
    /// Nothing to send.
    Stay,
}

/// The transition table. `None` means the event is not legal in the
/// state: the segment is dropped (in data states) or the attempt fails
/// (during open and close).
pub open spec fn spec_transition(s: ConnectionState, e: Event) -> Option<
    (ConnectionState, Action),
> {
    match (s, e) {
        (ConnectionState::Closed, Event::ActiveOpen) => Some(
            (ConnectionState::SynSent, Action::SendSyn),
        ),
        (ConnectionState::Listen, Event::RecvSyn) => Some(
            (ConnectionState::SynReceived, Action::SendSynAck),
        ),
        (ConnectionState::SynSent, Event::RecvValidSynAck) => Some(
            (ConnectionState::Established, Action::SendAck),
        ),
        (ConnectionState::SynSent, Event::HandshakeFailure) => Some(
            (ConnectionState::Closed, Action::Abort),
        ),
        (ConnectionState::SynReceived, Event::RecvValidAckOfSyn) => Some(
            (ConnectionState::Established, Action::Stay),
        ),
        (ConnectionState::SynReceived, Event::HandshakeFailure) => Some(
            (ConnectionState::Listen, Action::DiscardPartial),
        ),
        (ConnectionState::Established, Event::AppClose) => Some(
            (ConnectionState::FinWait1, Action::SendFin),
        ),
        (ConnectionState::Established, Event::RecvFin) => Some(
            (ConnectionState::CloseWait, Action::SendAck),
        ),
        (ConnectionState::FinWait1, Event::RecvAckOfFin) => Some(
            (ConnectionState::FinWait2, Action::Stay),
        ),
        (ConnectionState::FinWait2, Event::RecvFin) => Some(
            (ConnectionState::TimeWait, Action::SendAck),
        ),
        (ConnectionState::CloseWait, Event::AppClose) => Some(
            (ConnectionState::LastAck, Action::SendFin),
        ),
        (ConnectionState::LastAck, Event::RecvAckOfFin) => Some(
            (ConnectionState::Closed, Action::Stay),
        ),
        (ConnectionState::TimeWait, Event::TimeWaitElapsed) => Some(
            (ConnectionState::Closed, Action::Stay),
        ),
        _ => None,
    }
}

/// Looks an event up in the transition table: the new state and the side
/// effect when the table allows it, nothing when it does not.
pub fn transition(s: ConnectionState, e: Event) -> (r: Option<(ConnectionState, Action)>)
    ensures
        r == spec_transition(s, e),
{
    match (s, e) {
        (ConnectionState::Closed, Event::ActiveOpen) => Some(
            (ConnectionState::SynSent, Action::SendSyn),
        ),
        (ConnectionState::Listen, Event::RecvSyn) => Some(
            (ConnectionState::SynReceived, Action::SendSynAck),
        ),
        (ConnectionState::SynSent, Event::RecvValidSynAck) => Some(
            (ConnectionState::Established, Action::SendAck),
        ),
        (ConnectionState::SynSent, Event::HandshakeFailure) => Some(
            (ConnectionState::Closed, Action::Abort),
        ),
        (ConnectionState::SynReceived, Event::RecvValidAckOfSyn) => Some(
            (ConnectionState::Established, Action::Stay),
        ),
        (ConnectionState::SynReceived, Event::HandshakeFailure) => Some(
            (ConnectionState::Listen, Action::DiscardPartial),
        ),
        (ConnectionState::Established, Event::AppClose) => Some(
            (ConnectionState::FinWait1, Action::SendFin),
        ),
        (ConnectionState::Established, Event::RecvFin) => Some(
            (ConnectionState::CloseWait, Action::SendAck),
        ),
        (ConnectionState::FinWait1, Event::RecvAckOfFin) => Some(
            (ConnectionState::FinWait2, Action::Stay),
        ),
        (ConnectionState::FinWait2, Event::RecvFin) => Some(
            (ConnectionState::TimeWait, Action::SendAck),
        ),
        (ConnectionState::CloseWait, Event::AppClose) => Some(
            (ConnectionState::LastAck, Action::SendFin),
        ),
        (ConnectionState::LastAck, Event::RecvAckOfFin) => Some(
            (ConnectionState::Closed, Action::Stay),
        ),
        (ConnectionState::TimeWait, Event::TimeWaitElapsed) => Some(
            (ConnectionState::Closed, Action::Stay),
        ),
        _ => None,
    }
}

/// Whether the connection has reached CLOSED, the state in which a
/// record that finished teardown (or aborted) is destroyed.
pub fn is_fully_closed(s: ConnectionState) -> (r: bool)
    ensures
        r == (s == ConnectionState::Closed),
{
    match s {
        ConnectionState::Closed => true,
        _ => false,
    }
}

} // verus!
