//! The Go-Back-N sender: a sliding window over sequence-numbered data
//! segments, with a buffer of emitted-but-unacknowledged segments and a
//! single retransmission timer rooted at the window base. Loss recovery
//! retransmits the whole buffer; acknowledgments are cumulative and
//! advance the base monotonically (modulo 2^32).

use vstd::prelude::*;

use crate::packet::{seq_consumed, SegmentModel, StyxPacket, MAX_PAYLOAD};
use crate::seqnum::{
    seq_add, seq_advance, seq_distance, seq_le, seq_sub, lemma_seq_add_add,
    lemma_seq_add_between, lemma_seq_add_distance, lemma_seq_distance_add,
    lemma_seq_distance_shift,
};

verus! {

/// The most segments a window may admit.
pub const MAX_WINDOW: usize = 1024;

/// An upper bound on the sequence numbers outstanding at once:
/// `MAX_WINDOW` segments of `MAX_PAYLOAD` bytes each. Well below half
/// the sequence space, so serial-number comparisons inside the window
/// are unambiguous.
pub const MAX_IN_FLIGHT: u32 = 1024 * 1015;

/// The sequence-number offset of the buffered segment at index `i`,
/// counted from the window base: the sum of what the segments before it
/// consume.
pub open spec fn buf_offset(buf: Seq<StyxPacket>, i: int) -> int
    decreases i,
{
    if i <= 0 {
        0
    } else {
        buf_offset(buf, i - 1) + seq_consumed(buf[i - 1]@)
    }
}

/// The sequence numbers the whole buffer consumes.
pub open spec fn buf_total(buf: Seq<StyxPacket>) -> int {
    buf_offset(buf, buf.len() as int)
}

/// Every buffered segment is a plain data segment (no flags, empty
/// acknowledgment field) carrying at least one and at most
/// `MAX_PAYLOAD` payload bytes.
pub open spec fn buf_payloads_bounded(buf: Seq<StyxPacket>) -> bool {
    forall|i: int|
        0 <= i < buf.len() ==> {
            &&& 1 <= (#[trigger] buf[i])@.payload.len() <= MAX_PAYLOAD
            &&& buf[i]@.flags == 0
            &&& buf[i]@.ack_number == 0
        }
}

/// Each buffered segment is a bounded data segment, numbered
/// contiguously from `base`: segment `i` starts `buf_offset(buf, i)`
/// steps after the base.
pub open spec fn buf_wf(buf: Seq<StyxPacket>, base: u32) -> bool {
    &&& buf_payloads_bounded(buf)
    &&& forall|i: int|
        0 <= i < buf.len() ==> buf[i]@.sequence_number == seq_add(
            base,
            #[trigger] buf_offset(buf, i),
        )
}

/// The Go-Back-N sender of one connection.
pub struct GoBackNSender {
    /// The window base, `snd_una`: the lowest unacknowledged sequence
    /// number.
    pub base: u32,
    /// `snd_nxt`: the next sequence number to assign to outgoing data.
    pub next: u32,
    /// The emitted-but-unacknowledged segments, oldest first.
    pub buffer: Vec<StyxPacket>,
    /// Whether the retransmission timer is armed. It is armed exactly
    /// while something is outstanding; the clock itself ticks outside.
    pub timer: bool,
    /// The window size, in segments.
    pub window: usize,
}

impl GoBackNSender {
    /// The sender's invariant: the buffer holds exactly the segments
    /// with sequence numbers in `[base, next)`, contiguously and in
    /// order; the window is bounded; the timer is armed exactly while
    /// the window is non-empty.
    pub open spec fn wf(&self) -> bool {
        &&& 1 <= self.window <= MAX_WINDOW
        &&& self.buffer@.len() <= self.window
        &&& buf_wf(self.buffer@, self.base)
        &&& seq_distance(self.base, self.next) == buf_total(self.buffer@)
        &&& self.timer == (self.base != self.next)
    }

    /// A fresh sender whose window starts at `isn_next`, with nothing
    /// outstanding.
    pub fn new(isn_next: u32, window: usize) -> (s: GoBackNSender)
        requires
            1 <= window <= MAX_WINDOW,
        ensures
            s.wf(),
            s.base == isn_next,
            s.next == isn_next,
            s.buffer@.len() == 0,
            !s.timer,
            s.window == window,
    {
        GoBackNSender { base: isn_next, next: isn_next, buffer: Vec::new(), timer: false, window }
    }

    /// Whether the window admits another segment.
    pub fn can_send(&self) -> (r: bool)
        ensures
            r == (self.buffer@.len() < self.window),
    {
        self.buffer.len() < self.window
    }

    /// Forms the next data segment: sequence number `snd_nxt`, no flags,
    /// the given payload. Buffers it, advances `snd_nxt` past it, and
    /// arms the timer. The caller transmits the returned segment.
    pub fn send_data(&mut self, payload: Vec<u8>) -> (pkt: StyxPacket)
        requires
            old(self).wf(),
            old(self).buffer@.len() < old(self).window,
            1 <= payload@.len() <= MAX_PAYLOAD,
        ensures
            final(self).wf(),
            final(self).base == old(self).base,
            final(self).window == old(self).window,
            pkt@ == (SegmentModel {
                sequence_number: old(self).next,
                ack_number: 0,
                flags: 0,
                payload: payload@,
            }),
            final(self).next == seq_add(old(self).next, payload@.len() as int),
            final(self).buffer@.len() == old(self).buffer@.len() + 1,
            forall|i: int|
                0 <= i < old(self).buffer@.len() ==> final(self).buffer@[i] == old(self).buffer@[i],
            final(self).buffer@[old(self).buffer@.len() as int]@ == pkt@,
            final(self).timer,
    {
        let len = payload.len();
        let stored = StyxPacket {
            sequence_number: self.next,
            ack_number: 0,
            flags: 0,
            payload,
        };
        let pkt = stored.clone();
        let ghost buf0 = self.buffer@;
        let ghost base0 = self.base;
        let ghost next0 = self.next;
        let ghost d0 = buf_total(buf0);
        self.buffer.push(stored);
        self.next = seq_advance(self.next, len as u32);
        self.timer = true;
        proof {
            let n = buf0.len() as int;
            let buf1 = self.buffer@;
            assert(buf1 == buf0.push(stored));
            assert forall|i: int| 0 <= i <= n implies buf_offset(buf1, i) == buf_offset(
                buf0,
                i,
            ) by {
                lemma_buf_offset_prefix(buf1, buf0, i);
            }
            lemma_buf_offset_bounds(buf0, n);
            assert(n * (MAX_PAYLOAD as int) <= 1024 * 1015) by (nonlinear_arith)
                requires
                    0 <= n <= 1024,
            ;
            // the new segment sits right at the old snd_nxt
            lemma_seq_distance_add(base0, next0);
            assert(buf1[n]@.sequence_number == seq_add(base0, buf_offset(buf1, n)));
            // the window grew by the payload length
            assert(buf_offset(buf1, n + 1) == d0 + len);
            lemma_seq_add_add(base0, d0, len as int);
            lemma_seq_add_distance(base0, d0 + len);
            assert(seq_distance(self.base, self.next) == buf_total(buf1));
        }
        pkt
    }

    /// Applies a cumulative acknowledgment. When `ack` lies inside the
    /// window, the base advances past every fully acknowledged segment
    /// and those segments leave the buffer; an `ack` at or behind the
    /// base is a duplicate and is ignored, as is one beyond `snd_nxt`.
    /// The base never moves backward (modulo 2^32), and never beyond
    /// what was outstanding. Returns whether the base advanced, upon
    /// which the caller restarts the retransmission clock.
    pub fn on_ack(&mut self, ack: u32) -> (advanced: bool)
        requires
            old(self).wf(),
        ensures
            final(self).wf(),
            final(self).next == old(self).next,
            final(self).window == old(self).window,
            seq_le(old(self).base, final(self).base),
            seq_distance(old(self).base, final(self).base) <= seq_distance(
                old(self).base,
                old(self).next,
            ),
            advanced == (final(self).base != old(self).base),
            ({
                let d = seq_distance(old(self).base, ack);
                let n = old(self).buffer@.len() as int;
                let k = n - final(self).buffer@.len() as int;
                if 1 <= d <= buf_total(old(self).buffer@) {
                    &&& 0 <= k <= n
                    &&& final(self).buffer@ == old(self).buffer@.subrange(k, n)
                    &&& final(self).base == seq_add(
                        old(self).base,
                        buf_offset(old(self).buffer@, k),
                    )
                    &&& buf_offset(old(self).buffer@, k) <= d
                    &&& (k < n ==> d < buf_offset(old(self).buffer@, k + 1))
                } else {
                    &&& final(self).buffer@ == old(self).buffer@
                    &&& final(self).base == old(self).base
                }
            }),
    {
        let d = seq_sub(ack, self.base);
        let outstanding = seq_sub(self.next, self.base);
        if d == 0 || d > outstanding {
            return false;
        }
        let ghost buf0 = self.buffer@;
        let ghost base0 = self.base;
        let ghost n = buf0.len() as int;
        let ghost mut popped: int = 0;
        let mut covered: u32 = 0;
        proof {
            lemma_buf_offset_bounds(buf0, n);
            assert(n * (MAX_PAYLOAD as int) <= 1024 * 1015) by (nonlinear_arith)
                requires
                    0 <= n <= 1024,
            ;
        }
        while !self.buffer.is_empty() && covered + (self.buffer[0].payload.len() as u32) <= d
            invariant
                old(self).wf(),
                self.base == old(self).base,
                self.next == old(self).next,
                self.window == old(self).window,
                self.timer == old(self).timer,
                buf0 == old(self).buffer@,
                n == buf0.len() as int,
                1 <= d <= buf_total(buf0),
                buf_total(buf0) <= MAX_IN_FLIGHT,
                0 <= popped <= n,
                self.buffer@ == buf0.subrange(popped, n),
                covered == buf_offset(buf0, popped),
                covered <= d,
            decreases self.buffer@.len(),
        {
            let ghost bufi = self.buffer@;
            let seg = self.buffer.remove(0);
            proof {
                assert(bufi[0] == buf0[popped]);
                assert(seq_consumed(buf0[popped]@) == seg@.payload.len());
                assert(self.buffer@ =~= buf0.subrange(popped + 1, n));
                lemma_buf_offset_bounds(buf0, popped + 1);
            }
            covered = covered + seg.payload.len() as u32;
            proof {
                popped = popped + 1;
            }
        }
        let advanced = covered > 0;
        self.base = seq_advance(self.base, covered);
        self.timer = self.base != self.next;
        proof {
            let bufn = self.buffer@;
            let j = buf_offset(buf0, popped);
            let d0 = buf_total(buf0);
            // exit condition pins the popped count
            if popped < n {
                assert(bufn[0] == buf0[popped]);
                assert(buf_offset(buf0, popped + 1) == j + seq_consumed(buf0[popped]@));
            }
            // the base advanced by exactly the acknowledged offset
            lemma_buf_offset_mono(buf0, popped, n);
            lemma_seq_add_distance(base0, j);
            lemma_seq_distance_shift(base0, self.next, j);
            // offsets in the shortened buffer are shifted down by j
            assert forall|i: int| 0 <= i <= n - popped implies buf_offset(bufn, i) == buf_offset(
                buf0,
                popped + i,
            ) - j by {
                lemma_buf_offset_suffix(buf0, popped, i);
            }
            assert(buf_total(bufn) == d0 - j);
            // each remaining segment is still numbered from the new base
            assert forall|i: int| 0 <= i < bufn.len() implies (#[trigger] bufn[i])@.sequence_number
                == seq_add(self.base, buf_offset(bufn, i)) by {
                assert(bufn[i] == buf0[popped + i]);
                lemma_buf_offset_mono(buf0, popped, popped + i);
                lemma_buf_offset_mono(buf0, popped + i, n);
                lemma_seq_add_add(base0, j, buf_offset(bufn, i));
            }
            if popped > 0 {
                lemma_buf_offset_mono(buf0, 0, popped);
            }
            assert(advanced == (self.base != base0));
        }
        advanced
    }

    /// The segments to put back on the wire when the retransmission
    /// timer fires: every buffered segment, oldest first, unchanged.
    pub fn retransmission_list(&self) -> (r: Vec<StyxPacket>)
        ensures
            r@.len() == self.buffer@.len(),
            forall|i: int| 0 <= i < r@.len() ==> r@[i]@ == self.buffer@[i]@,
    {
        let mut r: Vec<StyxPacket> = Vec::new();
        let mut i: usize = 0;
        while i < self.buffer.len()
            invariant
                i <= self.buffer@.len(),
                r@.len() == i,
                forall|j: int| 0 <= j < i ==> r@[j]@ == self.buffer@[j]@,
            decreases self.buffer@.len() - i,
        {
            r.push(self.buffer[i].clone());
            i += 1;
        }
        r
    }
}

/// Splits an application message into segment payloads: consecutive
/// chunks of at most `MAX_PAYLOAD` bytes each, in order, covering the
/// whole message. An empty message yields no chunks.
pub fn split_message(data: &[u8]) -> (chunks: Vec<Vec<u8>>)
    ensures
        forall|k: int|
            0 <= k < chunks@.len() ==> (#[trigger] chunks@[k])@ == data@.subrange(
                k * (MAX_PAYLOAD as int),
                if (k + 1) * (MAX_PAYLOAD as int) <= data@.len() {
                    (k + 1) * (MAX_PAYLOAD as int)
                } else {
                    data@.len() as int
                },
            ),
        forall|k: int|
            0 <= k < chunks@.len() ==> 1 <= (#[trigger] chunks@[k])@.len() <= MAX_PAYLOAD,
        chunks@.len() * (MAX_PAYLOAD as int) >= data@.len(),
        chunks@.len() > 0 ==> (chunks@.len() - 1) * (MAX_PAYLOAD as int) < data@.len(),
        data@.len() == 0 ==> chunks@.len() == 0,
{
    let mut chunks: Vec<Vec<u8>> = Vec::new();
    let mut i: usize = 0;
    while i < data.len()
        invariant
            i <= data@.len(),
            i as int == (if chunks@.len() * (MAX_PAYLOAD as int) <= data@.len() {
                chunks@.len() * (MAX_PAYLOAD as int)
            } else {
                data@.len() as int
            }),
            chunks@.len() > 0 ==> (chunks@.len() - 1) * (MAX_PAYLOAD as int) < data@.len(),
            forall|k: int|
                0 <= k < chunks@.len() ==> (#[trigger] chunks@[k])@ == data@.subrange(
                    k * (MAX_PAYLOAD as int),
                    if (k + 1) * (MAX_PAYLOAD as int) <= data@.len() {
                        (k + 1) * (MAX_PAYLOAD as int)
                    } else {
                        data@.len() as int
                    },
                ),
            forall|k: int|
                0 <= k < chunks@.len() ==> 1 <= (#[trigger] chunks@[k])@.len() <= MAX_PAYLOAD,
        decreases data@.len() - i,
    {
        let end = if data.len() - i >= MAX_PAYLOAD {
            i + MAX_PAYLOAD
        } else {
            data.len()
        };
        let mut c: Vec<u8> = Vec::new();
        let mut j = i;
        while j < end
            invariant
                i <= j <= end <= data@.len(),
                c@ == data@.subrange(i as int, j as int),
            decreases end - j,
        {
            c.push(data[j]);
            assert(data@.subrange(i as int, j + 1) =~= data@.subrange(i as int, j as int)
                + seq![data@[j as int]]);
            j += 1;
        }
        chunks.push(c);
        i = end;
    }
    chunks
}

/// Whether some buffered segment covers the sequence number `s`.
pub open spec fn buffer_covers(buf: Seq<StyxPacket>, s: u32) -> bool {
    exists|i: int|
        0 <= i < buf.len() && seq_distance((#[trigger] buf[i])@.sequence_number, s) < seq_consumed(
            buf[i]@,
        )
}

/// Inside the total consumption, every distance falls within exactly one
/// segment's span of offsets.
proof fn lemma_offset_locate(buf: Seq<StyxPacket>, d: int) -> (i: int)
    requires
        buf_payloads_bounded(buf),
        0 <= d < buf_total(buf),
    ensures
        0 <= i < buf.len(),
        buf_offset(buf, i) <= d < buf_offset(buf, i + 1),
    decreases buf.len(),
{
    let n = buf.len() as int;
    if d < buf_offset(buf, n - 1) {
        let front = buf.subrange(0, n - 1);
        lemma_buf_offset_prefix(front, buf, n - 1);
        let i = lemma_offset_locate(front, d);
        lemma_buf_offset_prefix(front, buf, i);
        lemma_buf_offset_prefix(front, buf, i + 1);
        i
    } else {
        n - 1
    }
}

/// A sequence number inside the window is covered by some buffered
/// segment.
proof fn lemma_window_to_cover(snd: GoBackNSender, s: u32)
    requires
        snd.wf(),
        seq_distance(snd.base, s) < seq_distance(snd.base, snd.next),
    ensures
        buffer_covers(snd.buffer@, s),
{
    let buf = snd.buffer@;
    let base = snd.base;
    let n = buf.len() as int;
    let ds = seq_distance(base, s);
    lemma_buf_offset_bounds(buf, n);
    assert(n * (MAX_PAYLOAD as int) <= 1024 * 1015) by (nonlinear_arith)
        requires
            0 <= n <= 1024,
    ;
    let i = lemma_offset_locate(buf, ds);
    lemma_buf_offset_bounds(buf, i);
    lemma_buf_offset_mono(buf, i + 1, n);
    lemma_seq_distance_add(base, s);
    lemma_seq_add_between(base, buf_offset(buf, i), ds);
    assert(seq_distance(buf[i]@.sequence_number, s) < seq_consumed(buf[i]@));
}

/// A sequence number covered by a buffered segment lies inside the
/// window.
proof fn lemma_cover_to_window(snd: GoBackNSender, s: u32)
    requires
        snd.wf(),
        buffer_covers(snd.buffer@, s),
    ensures
        seq_distance(snd.base, s) < seq_distance(snd.base, snd.next),
{
    let buf = snd.buffer@;
    let base = snd.base;
    let n = buf.len() as int;
    lemma_buf_offset_bounds(buf, n);
    assert(n * (MAX_PAYLOAD as int) <= 1024 * 1015) by (nonlinear_arith)
        requires
            0 <= n <= 1024,
    ;
    let i = choose|i: int|
        0 <= i < buf.len() && seq_distance(
            (#[trigger] buf[i])@.sequence_number,
            s,
        ) < seq_consumed(buf[i]@);
    let e = seq_distance(buf[i]@.sequence_number, s);
    lemma_buf_offset_bounds(buf, i);
    lemma_buf_offset_bounds(buf, i + 1);
    assert(buf_offset(buf, i + 1) == buf_offset(buf, i) + seq_consumed(buf[i]@));
    lemma_buf_offset_mono(buf, i + 1, n);
    lemma_seq_distance_add(buf[i]@.sequence_number, s);
    lemma_seq_add_add(base, buf_offset(buf, i), e);
    lemma_seq_add_distance(base, buf_offset(buf, i) + e);
}

/// Buffer identity: a sequence number is covered by some buffered
/// segment exactly when it lies in the window `[snd_una, snd_nxt)`.
pub proof fn lemma_buffer_identity(snd: GoBackNSender, s: u32)
    requires
        snd.wf(),
    ensures
        buffer_covers(snd.buffer@, s) <==> seq_distance(snd.base, s) < seq_distance(
            snd.base,
            snd.next,
        ),
{
    if seq_distance(snd.base, s) < seq_distance(snd.base, snd.next) {
        lemma_window_to_cover(snd, s);
    }
    if buffer_covers(snd.buffer@, s) {
        lemma_cover_to_window(snd, s);
    }
}

/// Offsets only read the elements before the index: two buffers that
/// agree on a prefix have the same offsets within it.
pub proof fn lemma_buf_offset_prefix(b1: Seq<StyxPacket>, b2: Seq<StyxPacket>, i: int)
    requires
        0 <= i <= b1.len(),
        i <= b2.len(),
        forall|j: int| 0 <= j < i ==> b1[j] == b2[j],
    ensures
        buf_offset(b1, i) == buf_offset(b2, i),
    decreases i,
{
    if i > 0 {
        lemma_buf_offset_prefix(b1, b2, i - 1);
    }
}

/// With every payload in `[1, MAX_PAYLOAD]`, the offset of index `i`
/// lies between `i` and `i * MAX_PAYLOAD`.
pub proof fn lemma_buf_offset_bounds(buf: Seq<StyxPacket>, i: int)
    requires
        buf_payloads_bounded(buf),
        0 <= i <= buf.len(),
    ensures
        i <= buf_offset(buf, i) <= i * (MAX_PAYLOAD as int),
    decreases i,
{
    if i > 0 {
        lemma_buf_offset_bounds(buf, i - 1);
        assert(1 <= seq_consumed(buf[i - 1]@) <= MAX_PAYLOAD);
        assert((i - 1) * (MAX_PAYLOAD as int) + MAX_PAYLOAD == i * (MAX_PAYLOAD as int))
            by (nonlinear_arith);
    }
}

/// Offsets grow with the index.
pub proof fn lemma_buf_offset_mono(buf: Seq<StyxPacket>, i: int, j: int)
    requires
        buf_payloads_bounded(buf),
        0 <= i <= j <= buf.len(),
    ensures
        buf_offset(buf, i) + (j - i) <= buf_offset(buf, j),
    decreases j - i,
{
    if i < j {
        lemma_buf_offset_mono(buf, i, j - 1);
        assert(1 <= seq_consumed(buf[j - 1]@));
    }
}

/// Dropping `k` leading segments shifts every offset down by the
/// offset of `k`.
pub proof fn lemma_buf_offset_suffix(buf: Seq<StyxPacket>, k: int, i: int)
    requires
        0 <= k <= buf.len(),
        0 <= i <= buf.len() - k,
    ensures
        buf_offset(buf.subrange(k, buf.len() as int), i) == buf_offset(buf, k + i) - buf_offset(
            buf,
            k,
        ),
    decreases i,
{
    if i > 0 {
        lemma_buf_offset_suffix(buf, k, i - 1);
        assert(buf.subrange(k, buf.len() as int)[i - 1] == buf[k + i - 1]);
    }
}

} // verus!
