//! The per-connection record the socket facade owns: the lifecycle
//! state beside the sender and receiver halves. Every state change goes
//! through the transition table, so a connection only ever moves along
//! its edges.

use vstd::prelude::*;

use crate::handshake::Established;
use crate::receiver::GoBackNReceiver;
use crate::sender::{GoBackNSender, MAX_WINDOW};
use crate::state::{spec_transition, transition, Action, ConnectionState, Event};

verus! {

/// The default window size, in segments.
pub const WINDOW_SIZE: usize = 4;

/// How long each side waits for the next handshake or teardown step, in
/// milliseconds.
pub const HANDSHAKE_TIMEOUT_MS: u64 = 5000;

/// The receiver's poll quantum for a single-shot send, in milliseconds.
pub const DATA_TIMEOUT_MS: u64 = 500;

/// The sender's poll quantum while the window is open, in milliseconds.
pub const POLL_TIMEOUT_MS: u64 = 10;

/// The retransmission timeout, in milliseconds.
pub const RTO_MS: u64 = 1000;

/// How long the active closer lingers in TIME_WAIT, in milliseconds.
pub const TIME_WAIT_MS: u64 = 2000;

/// One connection's protocol state: where it stands in its lifecycle,
/// and the two halves of the reliable transfer engine.
pub struct Connection {
    /// The lifecycle state.
    pub state: ConnectionState,
    /// The sending half: window base, next sequence number, unacked
    /// segments, timer.
    pub sender: GoBackNSender,
    /// The receiving half: the next expected sequence number.
    pub receiver: GoBackNReceiver,
}

impl Connection {
    /// The connection's invariant: its sender's window is well formed.
    pub open spec fn wf(&self) -> bool {
        self.sender.wf()
    }

    /// A fresh record in the given lifecycle state with nothing
    /// outstanding: LISTEN for a server's bound socket, CLOSED for a
    /// client before its active open.
    pub fn new(state: ConnectionState, window: usize) -> (c: Connection)
        requires
            1 <= window <= MAX_WINDOW,
        ensures
            c.wf(),
            c.state == state,
            c.sender.base == 0,
            c.sender.next == 0,
            c.sender.buffer@.len() == 0,
            c.sender.window == window,
            c.receiver.rcv_nxt == 0,
    {
        Connection {
            state,
            sender: GoBackNSender::new(0, window),
            receiver: GoBackNReceiver::new(0),
        }
    }

    /// The record of a connection whose handshake just completed: the
    /// sender's window starts at the agreed `snd_nxt`, the receiver
    /// expects the agreed `rcv_nxt`, and the state is ESTABLISHED.
    pub fn establish(est: &Established, window: usize) -> (c: Connection)
        requires
            1 <= window <= MAX_WINDOW,
        ensures
            c.wf(),
            c.state == ConnectionState::Established,
            c.sender.base == est.snd_nxt,
            c.sender.next == est.snd_nxt,
            c.sender.buffer@.len() == 0,
            c.sender.window == window,
            !c.sender.timer,
            c.receiver.rcv_nxt == est.rcv_nxt,
    {
        Connection {
            state: ConnectionState::Established,
            sender: GoBackNSender::new(est.snd_nxt, window),
            receiver: GoBackNReceiver::new(est.rcv_nxt),
        }
    }

    /// Moves the connection along the transition table. A legal event
    /// changes the state to the table's target and hands back the side
    /// effect to perform; an illegal one changes nothing and hands back
    /// nothing. The transfer engine is untouched either way.
    pub fn apply_event(&mut self, e: Event) -> (r: Option<Action>)
        ensures
            final(self).sender == old(self).sender,
            final(self).receiver == old(self).receiver,
            match spec_transition(old(self).state, e) {
                Some((target, action)) => final(self).state == target && r == Some(action),
                None => final(self).state == old(self).state && r is None,
            },
    {
        match transition(self.state, e) {
            Some((target, action)) => {
                self.state = target;
                Some(action)
            },
            None => None,
        }
    }
}

} // verus!
