//! The three-way handshake: forming and validating the SYN, SYN+ACK and
//! final ACK, and the numbering both sides start from once it completes.
//! The datagram exchange itself happens outside; these functions decide
//! what to send and whether what arrived is acceptable.

use vstd::prelude::*;

use crate::error::StyxError;
use crate::packet::{legal_flags, SegmentModel, StyxPacket, ACK, SYN, SYN_ACK};
use crate::seqnum::{seq_add, seq_next};

verus! {

/// Relies on rand::random: draws a value from the thread-local
/// generator through the standard distribution. Nothing is promised of
/// the result: every initial sequence number must be handled.
pub assume_specification<T>[ rand::random::<T> ]() -> (r: T)
    where
        rand::distributions::Standard: rand::distributions::Distribution<T>,
;

/// The bound under which initial sequence numbers are drawn: a small
/// range keeps wire traces easy to read. The protocol itself handles
/// the full 32-bit space.
pub const ISN_RANGE: u32 = 1000;

/// Picks an initial sequence number for a new connection.
pub fn pick_isn() -> (isn: u32)
    ensures
        isn < ISN_RANGE,
{
    let r: u32 = rand::random::<u32>();
    r % ISN_RANGE
}

/// The numbering a completed handshake leaves behind: both endpoints
/// agree that our data starts at `snd_nxt` and the peer's at `rcv_nxt`.
#[derive(Debug)]
pub struct Established {
    /// Our next outgoing sequence number; nothing is unacknowledged yet,
    /// so `snd_una` equals it.
    pub snd_nxt: u32,
    /// The next sequence number expected from the peer.
    pub rcv_nxt: u32,
}

/// A passive opener's record between the SYN+ACK and the final ACK.
#[derive(Debug)]
pub struct SynReceivedPending {
    /// The initial sequence number this side chose.
    pub server_isn: u32,
    /// The initial sequence number the peer's SYN carried.
    pub client_isn: u32,
}

/// The SYN that begins an active open: our initial sequence number,
/// nothing acknowledged, no payload.
pub fn make_syn(isn: u32) -> (p: StyxPacket)
    ensures
        p@ == (SegmentModel {
            sequence_number: isn,
            ack_number: 0,
            flags: SYN,
            payload: Seq::empty(),
        }),
{
    let p = StyxPacket { sequence_number: isn, ack_number: 0, flags: SYN, payload: Vec::new() };
    assert(p@.payload =~= Seq::<u8>::empty());
    p
}

/// Whether `p` answers our SYN with initial sequence number `isn`:
/// flags exactly SYN+ACK and acknowledgment exactly `isn + 1`.
pub fn is_valid_syn_ack(isn: u32, p: &StyxPacket) -> (ok: bool)
    ensures
        ok == (p@.flags == SYN_ACK && p@.ack_number == seq_add(isn, 1)),
{
    p.flags == SYN_ACK && p.ack_number == seq_next(isn)
}

/// A segment an active opener accepts as the handshake reply carries a
/// legal flag value.
pub proof fn lemma_syn_ack_accept_legal(isn: u32, p: SegmentModel)
    requires
        p.flags == SYN_ACK && p.ack_number == seq_add(isn, 1),
    ensures
        legal_flags(p.flags),
{
}

/// Completes the active open on the peer's reply. A reply with flags
/// exactly SYN+ACK acknowledging `isn + 1` establishes the connection:
/// our data starts at `isn + 1`, the peer's at its sequence number plus
/// one, and the returned ACK closes the handshake. Any other reply
/// fails the handshake and the caller aborts to CLOSED.
pub fn active_open_reply(isn: u32, reply: &StyxPacket) -> (r: Result<
    (Established, StyxPacket),
    StyxError,
>)
    ensures
        r is Ok <==> (reply@.flags == SYN_ACK && reply@.ack_number == seq_add(isn, 1)),
        r matches Ok((est, ack)) ==> {
            &&& est.snd_nxt == seq_add(isn, 1)
            &&& est.rcv_nxt == seq_add(reply@.sequence_number, 1)
            &&& ack@ == (SegmentModel {
                sequence_number: seq_add(isn, 1),
                ack_number: seq_add(reply@.sequence_number, 1),
                flags: ACK,
                payload: Seq::empty(),
            })
        },
        r matches Err(e) ==> e == StyxError::HandshakeFailed,
{
    if !is_valid_syn_ack(isn, reply) {
        return Err(StyxError::HandshakeFailed);
    }
    let snd_nxt = seq_next(isn);
    let rcv_nxt = seq_next(reply.sequence_number);
    let ack = StyxPacket {
        sequence_number: snd_nxt,
        ack_number: rcv_nxt,
        flags: ACK,
        payload: Vec::new(),
    };
    assert(ack@.payload =~= Seq::<u8>::empty());
    Ok((Established { snd_nxt, rcv_nxt }, ack))
}

/// Begins the passive open on an incoming segment. A segment with flags
/// exactly SYN is the first handshake step: this side records both
/// initial sequence numbers and answers SYN+ACK acknowledging the
/// peer's SYN. Anything else is out of place in LISTEN.
pub fn passive_open_syn(server_isn: u32, syn: &StyxPacket) -> (r: Result<
    (SynReceivedPending, StyxPacket),
    StyxError,
>)
    ensures
        r is Ok <==> syn@.flags == SYN,
        r matches Ok((pend, syn_ack)) ==> {
            &&& pend.server_isn == server_isn
            &&& pend.client_isn == syn@.sequence_number
            &&& syn_ack@ == (SegmentModel {
                sequence_number: server_isn,
                ack_number: seq_add(syn@.sequence_number, 1),
                flags: SYN_ACK,
                payload: Seq::empty(),
            })
        },
        r matches Err(e) ==> e == StyxError::ProtocolViolation,
{
    if syn.flags != SYN {
        return Err(StyxError::ProtocolViolation);
    }
    let syn_ack = StyxPacket {
        sequence_number: server_isn,
        ack_number: seq_next(syn.sequence_number),
        flags: SYN_ACK,
        payload: Vec::new(),
    };
    assert(syn_ack@.payload =~= Seq::<u8>::empty());
    Ok((SynReceivedPending { server_isn, client_isn: syn.sequence_number }, syn_ack))
}

/// Completes the passive open on the expected final ACK. A segment with
/// flags exactly ACK acknowledging `server_isn + 1` establishes the
/// connection: this side's data starts at `server_isn + 1`, the peer's
/// at `client_isn + 1`. Anything else fails the handshake and the
/// caller returns to LISTEN.
pub fn passive_open_ack(pend: &SynReceivedPending, ack: &StyxPacket) -> (r: Result<
    Established,
    StyxError,
>)
    ensures
        r is Ok <==> (ack@.flags == ACK && ack@.ack_number == seq_add(pend.server_isn, 1)),
        r matches Ok(est) ==> {
            &&& est.snd_nxt == seq_add(pend.server_isn, 1)
            &&& est.rcv_nxt == seq_add(pend.client_isn, 1)
        },
        r matches Err(e) ==> e == StyxError::HandshakeFailed,
{
    if ack.flags == ACK && ack.ack_number == seq_next(pend.server_isn) {
        Ok(Established {
            snd_nxt: seq_next(pend.server_isn),
            rcv_nxt: seq_next(pend.client_isn),
        })
    } else {
        Err(StyxError::HandshakeFailed)
    }
}

} // verus!
