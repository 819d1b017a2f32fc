//! The cumulative receiver: it keeps only `rcv_nxt`, the next expected
//! sequence number. An in-order data segment is delivered to the
//! application and acknowledged with the new `rcv_nxt`; anything
//! out of order is dropped and answered with a duplicate of the most
//! recent cumulative acknowledgment. Nothing is buffered ahead of
//! order, matching the Go-Back-N sender.

use vstd::prelude::*;

use crate::packet::{legal_flags, SegmentModel, StyxPacket, ACK, FIN, MAX_PAYLOAD, SYN, SYN_ACK};
use crate::seqnum::{
    seq_add, seq_advance, seq_distance, seq_lt, lemma_seq_add_add, lemma_seq_add_between,
    SEQ_HALF,
};

verus! {

/// Whether the receiver accepts segment `s` as the next in-order data:
/// a plain data segment, carrying at least one and at most
/// `MAX_PAYLOAD` bytes, starting exactly at `rcv_nxt`.
pub open spec fn accepts_data(rcv_nxt: u32, s: SegmentModel) -> bool {
    s.flags == 0 && 1 <= s.payload.len() <= MAX_PAYLOAD && s.sequence_number == rcv_nxt
}

/// The receiver's next expected sequence number after it sees `s`: it
/// advances past accepted data and is untouched by everything else.
pub open spec fn step_rcv_nxt(rcv_nxt: u32, s: SegmentModel) -> u32 {
    if accepts_data(rcv_nxt, s) {
        seq_add(rcv_nxt, s.payload.len() as int)
    } else {
        rcv_nxt
    }
}

/// A segment the receiver accepts as in-order data carries a legal flag
/// value (the empty one).
pub proof fn lemma_data_accept_legal(rcv_nxt: u32, s: SegmentModel)
    requires
        accepts_data(rcv_nxt, s),
    ensures
        legal_flags(s.flags),
{
}

/// What the receiver hands back for one incoming segment.
pub enum RecvOutcome {
    /// The next in-order data segment: give `data` to the application
    /// and transmit `ack`.
    Deliver { data: Vec<u8>, ack: StyxPacket },
    /// Dropped (out of order, empty data, or an illegal flag
    /// combination): transmit the duplicate cumulative `ack`.
    DupAck { ack: StyxPacket },
    /// A FIN: the teardown driver takes over.
    FinReceived,
    /// A stray SYN, SYN+ACK or pure ACK in the data phase: dropped
    /// silently.
    Ignored,
}

/// The cumulative receiver of one connection.
pub struct GoBackNReceiver {
    /// The next expected incoming sequence number.
    pub rcv_nxt: u32,
}

impl GoBackNReceiver {
    /// A fresh receiver expecting `rcv_nxt` first.
    pub fn new(rcv_nxt: u32) -> (r: GoBackNReceiver)
        ensures
            r.rcv_nxt == rcv_nxt,
    {
        GoBackNReceiver { rcv_nxt }
    }

    /// The current cumulative acknowledgment: a pure ACK asking for
    /// `rcv_nxt`, stamped with the local sequence number `my_seq`.
    pub fn current_ack(&self, my_seq: u32) -> (ack: StyxPacket)
        ensures
            ack@ == (SegmentModel {
                sequence_number: my_seq,
                ack_number: self.rcv_nxt,
                flags: ACK,
                payload: Seq::empty(),
            }),
    {
        let ack = StyxPacket {
            sequence_number: my_seq,
            ack_number: self.rcv_nxt,
            flags: ACK,
            payload: Vec::new(),
        };
        assert(ack@.payload =~= Seq::<u8>::empty());
        ack
    }

    /// Reacts to one incoming segment. Exactly the next in-order data
    /// segment is delivered, and `rcv_nxt` advances past it; everything
    /// else leaves `rcv_nxt` where it was. Data out of order is answered
    /// with a duplicate cumulative acknowledgment, a FIN is handed to
    /// the teardown driver, and stray handshake or pure-ACK segments
    /// are dropped silently.
    pub fn on_segment(&mut self, my_seq: u32, pkt: &StyxPacket) -> (r: RecvOutcome)
        ensures
            final(self).rcv_nxt == step_rcv_nxt(old(self).rcv_nxt, pkt@),
            accepts_data(old(self).rcv_nxt, pkt@) <==> (r matches RecvOutcome::Deliver {
                data,
                ack,
            }),
            (r matches RecvOutcome::Deliver { data, ack } ==> {
                &&& data@ == pkt@.payload
                &&& ack@ == (SegmentModel {
                    sequence_number: my_seq,
                    ack_number: final(self).rcv_nxt,
                    flags: ACK,
                    payload: Seq::empty(),
                })
            }),
            (r matches RecvOutcome::DupAck { ack } ==> ack@ == (SegmentModel {
                sequence_number: my_seq,
                ack_number: old(self).rcv_nxt,
                flags: ACK,
                payload: Seq::empty(),
            })),
            (r matches RecvOutcome::DupAck { ack } <==> !accepts_data(old(self).rcv_nxt, pkt@)
                && (pkt@.flags == 0 || !legal_flags(pkt@.flags))),
            (r is FinReceived <==> pkt@.flags == FIN),
            (r is Ignored <==> pkt@.flags == SYN || pkt@.flags == ACK || pkt@.flags == SYN_ACK),
    {
        if pkt.flags == 0 {
            if pkt.payload.len() >= 1 && pkt.payload.len() <= MAX_PAYLOAD
                && pkt.sequence_number == self.rcv_nxt {
                let data = crate::packet::copy_bytes(&pkt.payload);
                self.rcv_nxt = seq_advance(self.rcv_nxt, pkt.payload.len() as u32);
                let ack = self.current_ack(my_seq);
                RecvOutcome::Deliver { data, ack }
            } else {
                let ack = self.current_ack(my_seq);
                RecvOutcome::DupAck { ack }
            }
        } else if pkt.flags == FIN {
            RecvOutcome::FinReceived
        } else if pkt.flags == SYN || pkt.flags == ACK || pkt.flags == SYN_ACK {
            RecvOutcome::Ignored
        } else {
            let ack = self.current_ack(my_seq);
            RecvOutcome::DupAck { ack }
        }
    }
}

/// The deliveries the receiver makes over a run of incoming segments,
/// each tagged with the sequence number it starts at, in order.
pub open spec fn spec_deliveries(rcv_nxt: u32, segs: Seq<SegmentModel>) -> Seq<(u32, Seq<u8>)>
    decreases segs.len(),
{
    if segs.len() == 0 {
        Seq::empty()
    } else {
        let head = if accepts_data(rcv_nxt, segs[0]) {
            seq![(rcv_nxt, segs[0].payload)]
        } else {
            Seq::<(u32, Seq<u8>)>::empty()
        };
        head + spec_deliveries(step_rcv_nxt(rcv_nxt, segs[0]), segs.drop_first())
    }
}

/// The sequence numbers the first `i` deliveries consume.
pub open spec fn dev_offset(devs: Seq<(u32, Seq<u8>)>, i: int) -> int
    decreases i,
{
    if i <= 0 {
        0
    } else {
        dev_offset(devs, i - 1) + devs[i - 1].1.len()
    }
}

/// Offsets only read the deliveries before the index.
proof fn lemma_dev_offset_prefix(d1: Seq<(u32, Seq<u8>)>, d2: Seq<(u32, Seq<u8>)>, i: int)
    requires
        0 <= i <= d1.len(),
        i <= d2.len(),
        forall|j: int| 0 <= j < i ==> d1[j] == d2[j],
    ensures
        dev_offset(d1, i) == dev_offset(d2, i),
    decreases i,
{
    if i > 0 {
        lemma_dev_offset_prefix(d1, d2, i - 1);
    }
}

/// Delivery offsets grow with the index when every delivery is
/// non-empty.
proof fn lemma_dev_offset_mono(devs: Seq<(u32, Seq<u8>)>, i: int, j: int)
    requires
        0 <= i <= j <= devs.len(),
        forall|k: int| 0 <= k < devs.len() ==> (#[trigger] devs[k]).1.len() >= 1,
    ensures
        dev_offset(devs, i) + (j - i) <= dev_offset(devs, j),
    decreases j - i,
{
    if i < j {
        lemma_dev_offset_mono(devs, i, j - 1);
    }
}

/// Each delivery in a run is non-empty and starts exactly where the
/// bytes delivered so far end: `dev_offset(devs, k)` steps after the
/// starting `rcv_nxt`.
pub proof fn lemma_deliveries_contiguous(rcv_nxt: u32, segs: Seq<SegmentModel>)
    ensures
        forall|k: int|
            0 <= k < spec_deliveries(rcv_nxt, segs).len() ==> spec_deliveries(rcv_nxt, segs)[k].1.len()
                >= 1 && spec_deliveries(rcv_nxt, segs)[k].0 == seq_add(
                rcv_nxt,
                #[trigger] dev_offset(spec_deliveries(rcv_nxt, segs), k),
            ),
    decreases segs.len(),
{
    let devs = spec_deliveries(rcv_nxt, segs);
    if segs.len() > 0 {
        let rcv1 = step_rcv_nxt(rcv_nxt, segs[0]);
        let tail = spec_deliveries(rcv1, segs.drop_first());
        lemma_deliveries_contiguous(rcv1, segs.drop_first());
        assert forall|j: int| 0 <= j < tail.len() implies (#[trigger] tail[j]).1.len() >= 1 by {
            let d = dev_offset(tail, j);
        }
        if accepts_data(rcv_nxt, segs[0]) {
            let l0 = segs[0].payload.len() as int;
            assert forall|k: int| 0 <= k < devs.len() implies {
                &&& devs[k].1.len() >= 1
                &&& devs[k].0 == seq_add(rcv_nxt, #[trigger] dev_offset(devs, k))
            } by {
                if k == 0 {
                    assert(dev_offset(devs, 0) == 0);
                    assert(seq_add(rcv_nxt, 0) == rcv_nxt);
                } else {
                    assert(devs[k] == tail[k - 1]);
                    lemma_dev_offset_shift(devs, tail, l0, k - 1);
                    lemma_dev_offset_mono(tail, 0, k - 1);
                    lemma_seq_add_add(rcv_nxt, l0, dev_offset(tail, k - 1));
                }
            }
        } else {
            assert(devs =~= tail);
            assert(rcv1 == rcv_nxt);
        }
    }
}

/// Prepending one delivery of `l0` bytes shifts every offset up by
/// `l0`.
proof fn lemma_dev_offset_shift(
    devs: Seq<(u32, Seq<u8>)>,
    tail: Seq<(u32, Seq<u8>)>,
    l0: int,
    j: int,
)
    requires
        devs.len() == tail.len() + 1,
        0 <= j <= tail.len(),
        devs[0].1.len() == l0,
        forall|i: int| 0 <= i < tail.len() ==> tail[i] == devs[i + 1],
    ensures
        dev_offset(devs, j + 1) == dev_offset(tail, j) + l0,
    decreases j,
{
    if j > 0 {
        lemma_dev_offset_shift(devs, tail, l0, j - 1);
        assert(tail[j - 1] == devs[j]);
        assert(dev_offset(devs, j + 1) == dev_offset(devs, j) + devs[j].1.len());
        assert(dev_offset(tail, j) == dev_offset(tail, j - 1) + tail[j - 1].1.len());
    } else {
        assert(dev_offset(devs, 1) == dev_offset(devs, 0) + devs[0].1.len());
        assert(dev_offset(tail, 0) == 0);
    }
}

/// The total bytes a run of segments delivers.
pub open spec fn delivered_total(rcv_nxt: u32, segs: Seq<SegmentModel>) -> int {
    let devs = spec_deliveries(rcv_nxt, segs);
    dev_offset(devs, devs.len() as int)
}

/// At-most-once delivery: over any run whose deliveries stay within
/// one wrap of the sequence space, no two deliveries start at the same
/// sequence number; and while they stay within half the space, later
/// deliveries start at strictly greater sequence numbers in
/// serial-number order.
pub proof fn lemma_at_most_once_delivery(rcv_nxt: u32, segs: Seq<SegmentModel>)
    requires
        delivered_total(rcv_nxt, segs) < 0x1_0000_0000,
    ensures
        forall|i: int, j: int|
            0 <= i < j < spec_deliveries(rcv_nxt, segs).len() ==> (#[trigger] spec_deliveries(
                rcv_nxt,
                segs,
            )[i]).0 != (#[trigger] spec_deliveries(rcv_nxt, segs)[j]).0,
        delivered_total(rcv_nxt, segs) < SEQ_HALF ==> forall|i: int, j: int|
            0 <= i < j < spec_deliveries(rcv_nxt, segs).len() ==> seq_lt(
                (#[trigger] spec_deliveries(rcv_nxt, segs)[i]).0,
                (#[trigger] spec_deliveries(rcv_nxt, segs)[j]).0,
            ),
{
    let devs = spec_deliveries(rcv_nxt, segs);
    let n = devs.len() as int;
    lemma_deliveries_contiguous(rcv_nxt, segs);
    assert forall|k: int| 0 <= k < n implies (#[trigger] devs[k]).1.len() >= 1 by {
        let d = dev_offset(devs, k);
    }
    assert forall|i: int, j: int| 0 <= i < j < n implies seq_distance(devs[i].0, devs[j].0)
        == dev_offset(devs, j) - dev_offset(devs, i) by {
        lemma_dev_offset_mono(devs, 0, i);
        lemma_dev_offset_mono(devs, i, j);
        lemma_dev_offset_mono(devs, j, n);
        lemma_seq_add_between(rcv_nxt, dev_offset(devs, i), dev_offset(devs, j));
    }
    assert forall|i: int, j: int| 0 <= i < j < n implies (#[trigger] devs[i]).0 != (
    #[trigger] devs[j]).0 by {
        lemma_dev_offset_mono(devs, i, j);
        assert(seq_distance(devs[i].0, devs[j].0) > 0);
    }
    if delivered_total(rcv_nxt, segs) < SEQ_HALF {
        assert forall|i: int, j: int| 0 <= i < j < n implies seq_lt(
            (#[trigger] devs[i]).0,
            (#[trigger] devs[j]).0,
        ) by {
            lemma_dev_offset_mono(devs, 0, i);
            lemma_dev_offset_mono(devs, i, j);
            lemma_dev_offset_mono(devs, j, n);
        }
    }
}

} // verus!
