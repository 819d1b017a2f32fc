//! The four-way teardown: forming and validating the FINs and their
//! acknowledgments, for both the active closer (FIN, await its ACK,
//! await the peer's FIN, answer it, linger in TIME_WAIT) and the
//! passive closer (answer the peer's FIN, send our own, await the final
//! ACK). The waiting happens outside; these functions decide what to
//! send and whether what arrived is acceptable.

use vstd::prelude::*;

use crate::error::StyxError;
use crate::packet::{SegmentModel, StyxPacket, ACK, FIN};
use crate::seqnum::{seq_add, seq_next};

verus! {

/// The FIN that begins a close: it occupies the sequence position
/// `snd_nxt`, acknowledges nothing, and carries no payload.
pub fn make_fin(snd_nxt: u32) -> (p: StyxPacket)
    ensures
        p@ == (SegmentModel {
            sequence_number: snd_nxt,
            ack_number: 0,
            flags: FIN,
            payload: Seq::empty(),
        }),
{
    let p = StyxPacket {
        sequence_number: snd_nxt,
        ack_number: 0,
        flags: FIN,
        payload: Vec::new(),
    };
    assert(p@.payload =~= Seq::<u8>::empty());
    p
}

/// Whether `p` acknowledges our FIN sent at sequence number `fin_seq`:
/// flags exactly ACK and acknowledgment exactly `fin_seq + 1`, the FIN
/// consuming one sequence slot.
pub fn is_fin_ack(fin_seq: u32, p: &StyxPacket) -> (ok: bool)
    ensures
        ok == (p@.flags == ACK && p@.ack_number == seq_add(fin_seq, 1)),
{
    p.flags == ACK && p.ack_number == seq_next(fin_seq)
}

/// Whether `p` is the peer's FIN.
pub fn is_fin(p: &StyxPacket) -> (ok: bool)
    ensures
        ok == (p@.flags == FIN),
{
    p.flags == FIN
}

/// A segment the teardown driver accepts, whether a FIN or the
/// acknowledgment of one, carries a legal flag value.
pub proof fn lemma_teardown_accept_legal(fin_seq: u32, p: SegmentModel)
    requires
        p.flags == FIN || (p.flags == ACK && p.ack_number == seq_add(fin_seq, 1)),
    ensures
        crate::packet::legal_flags(p.flags),
{
}

/// The ACK that answers the peer's FIN: it asks for the sequence number
/// right after the FIN and is stamped with our sequence number.
pub fn ack_for_fin(my_seq: u32, fin: &StyxPacket) -> (p: StyxPacket)
    ensures
        p@ == (SegmentModel {
            sequence_number: my_seq,
            ack_number: seq_add(fin@.sequence_number, 1),
            flags: ACK,
            payload: Seq::empty(),
        }),
{
    let p = StyxPacket {
        sequence_number: my_seq,
        ack_number: seq_next(fin.sequence_number),
        flags: ACK,
        payload: Vec::new(),
    };
    assert(p@.payload =~= Seq::<u8>::empty());
    p
}

/// Begins the passive close on the peer's FIN: the acknowledgment that
/// answers it, and this side's own FIN right behind. Both take the
/// peer's acknowledgment number as this side's sequence number, the
/// peer's view of where our data ended. A segment that is not exactly a
/// FIN is out of place here.
pub fn passive_close_reply(fin: &StyxPacket) -> (r: Result<(StyxPacket, StyxPacket), StyxError>)
    ensures
        r is Ok <==> fin@.flags == FIN,
        r matches Ok((ack, our_fin)) ==> {
            &&& ack@ == (SegmentModel {
                sequence_number: fin@.ack_number,
                ack_number: seq_add(fin@.sequence_number, 1),
                flags: ACK,
                payload: Seq::empty(),
            })
            &&& our_fin@ == (SegmentModel {
                sequence_number: fin@.ack_number,
                ack_number: 0,
                flags: FIN,
                payload: Seq::empty(),
            })
        },
        r matches Err(e) ==> e == StyxError::ProtocolViolation,
{
    if fin.flags != FIN {
        return Err(StyxError::ProtocolViolation);
    }
    let ack = ack_for_fin(fin.ack_number, fin);
    let our_fin = make_fin(fin.ack_number);
    Ok((ack, our_fin))
}

/// Ends the passive close on the expected final acknowledgment of our
/// FIN at `fin_seq`: the connection is then fully closed. Anything else
/// fails the teardown and the caller forces the connection to CLOSED.
pub fn passive_close_final(fin_seq: u32, p: &StyxPacket) -> (r: Result<(), StyxError>)
    ensures
        r is Ok <==> (p@.flags == ACK && p@.ack_number == seq_add(fin_seq, 1)),
        r matches Err(e) ==> e == StyxError::TeardownFailed,
{
    if is_fin_ack(fin_seq, p) {
        Ok(())
    } else {
        Err(StyxError::TeardownFailed)
    }
}

} // verus!
