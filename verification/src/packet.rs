//! The segment codec: a fixed 9-byte header (big-endian sequence number,
//! big-endian acknowledgment number, one flag byte) followed by the raw
//! payload. Serialization never fails; deserialization validates the
//! header length and the reserved flag bits.

use vstd::prelude::*;

use crate::error::StyxError;

verus! {

/// Synchronize sequence numbers (connection open).
pub const SYN: u8 = 1;

/// The acknowledgment number is meaningful.
pub const ACK: u8 = 2;

/// No more data from the sender (connection close).
pub const FIN: u8 = 4;

/// SYN and ACK together: the second step of the three-way handshake.
pub const SYN_ACK: u8 = 3;

/// Header bytes on the wire: 4 (sequence) + 4 (acknowledgment) + 1 (flags).
pub const HEADER_SIZE: usize = 9;

/// The most payload bytes one segment may carry: a 1024-byte datagram
/// minus the 9-byte header.
pub const MAX_PAYLOAD: usize = 1015;

/// A single segment of the Styx protocol: the atomic wire unit.
#[derive(Debug)]
pub struct StyxPacket {
    /// Position of the first payload byte (or the synthetic position of a
    /// SYN or FIN).
    pub sequence_number: u32,
    /// The next sequence number the sender expects when `ACK` is set;
    /// zero otherwise.
    pub ack_number: u32,
    /// Bitmask over SYN, ACK and FIN; the remaining bits are reserved.
    pub flags: u8,
    /// The data carried by the segment.
    pub payload: Vec<u8>,
}

/// The mathematical model of a segment: the payload as a byte sequence.
#[verifier::ext_equal]
pub struct SegmentModel {
    pub sequence_number: u32,
    pub ack_number: u32,
    pub flags: u8,
    pub payload: Seq<u8>,
}

impl View for StyxPacket {
    type V = SegmentModel;

    open spec fn view(&self) -> SegmentModel {
        SegmentModel {
            sequence_number: self.sequence_number,
            ack_number: self.ack_number,
            flags: self.flags,
            payload: self.payload@,
        }
    }
}

/// The four bytes of `x` in big-endian order.
pub open spec fn u32_be_bytes(x: u32) -> Seq<u8> {
    seq![
        (x / 0x1000000) as u8,
        ((x / 0x10000) % 0x100) as u8,
        ((x / 0x100) % 0x100) as u8,
        (x % 0x100) as u8,
    ]
}

/// The value of four big-endian bytes.
pub open spec fn u32_from_be_bytes(b: Seq<u8>) -> u32
    recommends
        b.len() == 4,
{
    (b[0] * 0x1000000 + b[1] * 0x10000 + b[2] * 0x100 + b[3]) as u32
}

/// The flag byte uses only the SYN, ACK and FIN bits; the five reserved
/// bits are clear. Equivalently, the byte is below 8.
pub open spec fn flags_wire_valid(f: u8) -> bool {
    f < 8
}

/// The byte sequence that encodes segment `s`.
pub open spec fn spec_encode(s: SegmentModel) -> Seq<u8> {
    u32_be_bytes(s.sequence_number) + u32_be_bytes(s.ack_number) + seq![s.flags] + s.payload
}

/// Whether the bytes `b` decode to a segment: long enough for a header,
/// and no reserved flag bit set.
pub open spec fn wire_valid(b: Seq<u8>) -> bool {
    b.len() >= HEADER_SIZE && flags_wire_valid(b[8])
}

/// The segment that the bytes `b` decode to.
pub open spec fn spec_parse(b: Seq<u8>) -> SegmentModel
    recommends
        wire_valid(b),
{
    SegmentModel {
        sequence_number: u32_from_be_bytes(b.subrange(0, 4)),
        ack_number: u32_from_be_bytes(b.subrange(4, 8)),
        flags: b[8],
        payload: b.subrange(HEADER_SIZE as int, b.len() as int),
    }
}

/// Reassembling the four big-endian bytes of `x` gives back `x`.
pub proof fn lemma_u32_be_round_trip(x: u32)
    ensures
        u32_from_be_bytes(u32_be_bytes(x)) == x,
{
    assert((x / 0x1000000) * 0x1000000 + ((x / 0x10000) % 0x100) * 0x10000 + ((x / 0x100) % 0x100)
        * 0x100 + (x % 0x100) == x) by (bit_vector);
    assert(x / 0x1000000 < 0x100) by (bit_vector);
}

/// Decoding an encoded segment gives back the segment, for every segment
/// whose flag byte has no reserved bit set: the codec round-trip law.
pub proof fn lemma_codec_round_trip(s: SegmentModel)
    requires
        flags_wire_valid(s.flags),
    ensures
        wire_valid(spec_encode(s)),
        spec_parse(spec_encode(s)) == s,
{
    let b = spec_encode(s);
    assert(b.subrange(0, 4) =~= u32_be_bytes(s.sequence_number));
    assert(b.subrange(4, 8) =~= u32_be_bytes(s.ack_number));
    assert(b[8] == s.flags);
    assert(b.subrange(HEADER_SIZE as int, b.len() as int) =~= s.payload);
    lemma_u32_be_round_trip(s.sequence_number);
    lemma_u32_be_round_trip(s.ack_number);
    assert(spec_parse(b) =~= s);
}

/// How many sequence numbers a segment consumes: its payload length when
/// it carries data; one for an empty SYN or FIN, which occupy a synthetic
/// position; zero for an empty plain or pure-ACK segment, which does not
/// advance sequence numbers.
pub open spec fn seq_consumed(s: SegmentModel) -> int {
    if s.payload.len() > 0 {
        s.payload.len() as int
    } else if s.flags == SYN || s.flags == FIN || s.flags == SYN_ACK {
        1
    } else {
        0
    }
}

/// Copies a byte vector.
pub fn copy_bytes(v: &Vec<u8>) -> (r: Vec<u8>)
    ensures
        r@ == v@,
{
    let mut r: Vec<u8> = Vec::new();
    let mut i: usize = 0;
    while i < v.len()
        invariant
            i <= v@.len(),
            r@ == v@.subrange(0, i as int),
        decreases v@.len() - i,
    {
        r.push(v[i]);
        assert(v@.subrange(0, i + 1) =~= v@.subrange(0, i as int) + seq![v@[i as int]]);
        i += 1;
    }
    assert(r@ =~= v@);
    r
}

/// Whether two byte vectors hold the same bytes.
pub fn eq_bytes(a: &Vec<u8>, b: &Vec<u8>) -> (r: bool)
    ensures
        r == (a@ == b@),
{
    if a.len() != b.len() {
        return false;
    }
    let mut i: usize = 0;
    while i < a.len()
        invariant
            a@.len() == b@.len(),
            i <= a@.len(),
            forall|j: int| 0 <= j < i ==> a@[j] == b@[j],
        decreases a@.len() - i,
    {
        if a[i] != b[i] {
            return false;
        }
        i += 1;
    }
    assert(a@ =~= b@);
    true
}

impl PartialEq for StyxPacket {
    /// Two segments are equal when all header fields and all payload
    /// bytes agree.
    fn eq(&self, other: &Self) -> (r: bool) {
        self.sequence_number == other.sequence_number && self.ack_number == other.ack_number
            && self.flags == other.flags && eq_bytes(&self.payload, &other.payload)
    }
}

impl vstd::std_specs::cmp::PartialEqSpecImpl for StyxPacket {
    open spec fn obeys_eq_spec() -> bool {
        true
    }

    open spec fn eq_spec(&self, other: &Self) -> bool {
        self@ == other@
    }
}

impl Clone for StyxPacket {
    /// A clone carries the same header fields and the same payload bytes.
    fn clone(&self) -> (r: Self)
        ensures
            r@ == self@,
    {
        StyxPacket {
            sequence_number: self.sequence_number,
            ack_number: self.ack_number,
            flags: self.flags,
            payload: copy_bytes(&self.payload),
        }
    }
}

/// The shape of a segment, read off its flag byte.
#[derive(Debug, Clone, Copy, PartialEq, Eq, Structural)]
pub enum SegmentKind {
    /// No flag set: a pure data segment.
    Data,
    /// SYN alone: the first step of the handshake.
    Syn,
    /// ACK alone: an acknowledgment, possibly carrying data.
    Ack,
    /// FIN alone: the sender is done.
    Fin,
    /// SYN and ACK: the second step of the handshake.
    SynAck,
}

/// The five flag values a segment may carry and still be accepted:
/// 0, SYN, ACK, FIN, and SYN|ACK. Every other combination is refused
/// by the endpoints.
pub open spec fn legal_flags(f: u8) -> bool {
    f == 0 || f == SYN || f == ACK || f == FIN || f == SYN_ACK
}

/// The flag byte that each segment shape stands for.
pub open spec fn kind_flags(k: SegmentKind) -> u8 {
    match k {
        SegmentKind::Data => 0,
        SegmentKind::Syn => SYN,
        SegmentKind::Ack => ACK,
        SegmentKind::Fin => FIN,
        SegmentKind::SynAck => SYN_ACK,
    }
}

/// Reads the shape of a segment off its flag byte; refuses every flag
/// value outside the five legal ones.
pub fn classify_flags(f: u8) -> (r: Option<SegmentKind>)
    ensures
        r is Some <==> legal_flags(f),
        r matches Some(k) ==> kind_flags(k) == f,
{
    if f == 0 {
        Some(SegmentKind::Data)
    } else if f == SYN {
        Some(SegmentKind::Syn)
    } else if f == ACK {
        Some(SegmentKind::Ack)
    } else if f == FIN {
        Some(SegmentKind::Fin)
    } else if f == SYN_ACK {
        Some(SegmentKind::SynAck)
    } else {
        None
    }
}

/// A legal flag byte names exactly one segment shape: some shape carries
/// it, and no two distinct shapes carry the same byte.
pub proof fn lemma_legal_flags_exclusive(f: u8)
    requires
        legal_flags(f),
    ensures
        exists|k: SegmentKind| kind_flags(k) == f,
        forall|k1: SegmentKind, k2: SegmentKind|
            kind_flags(k1) == f && kind_flags(k2) == f ==> k1 == k2,
{
    if f == 0 {
        assert(kind_flags(SegmentKind::Data) == f);
    } else if f == SYN {
        assert(kind_flags(SegmentKind::Syn) == f);
    } else if f == ACK {
        assert(kind_flags(SegmentKind::Ack) == f);
    } else if f == FIN {
        assert(kind_flags(SegmentKind::Fin) == f);
    } else {
        assert(kind_flags(SegmentKind::SynAck) == f);
    }
}

/// Appends the four big-endian bytes of `x` to `out`.
fn push_u32_be(out: &mut Vec<u8>, x: u32)
    ensures
        final(out)@ == old(out)@ + u32_be_bytes(x),
{
    out.push((x / 0x1000000) as u8);
    out.push((x / 0x10000 % 0x100) as u8);
    out.push((x / 0x100 % 0x100) as u8);
    out.push((x % 0x100) as u8);
    assert(out@ =~= old(out)@ + u32_be_bytes(x));
}

/// Reads the four big-endian bytes of `b` starting at `off`.
fn read_u32_be(b: &[u8], off: usize) -> (x: u32)
    requires
        off + 4 <= b@.len(),
    ensures
        x == u32_from_be_bytes(b@.subrange(off as int, off + 4)),
{
    let x = b[off] as u32 * 0x1000000 + b[off + 1] as u32 * 0x10000 + b[off + 2] as u32 * 0x100
        + b[off + 3] as u32;
    assert(b@.subrange(off as int, off + 4)[0] == b@[off as int]);
    x
}

impl StyxPacket {
    /// Serializes the segment: header first, then the raw payload. The
    /// result is always `HEADER_SIZE` plus the payload length bytes long.
    pub fn to_bytes(&self) -> (r: Vec<u8>)
        ensures
            r@ == spec_encode(self@),
            r@.len() == HEADER_SIZE + self.payload@.len(),
    {
        let mut bytes: Vec<u8> = Vec::new();
        push_u32_be(&mut bytes, self.sequence_number);
        push_u32_be(&mut bytes, self.ack_number);
        bytes.push(self.flags);
        let mut i: usize = 0;
        while i < self.payload.len()
            invariant
                i <= self.payload@.len(),
                bytes@ == u32_be_bytes(self.sequence_number) + u32_be_bytes(self.ack_number)
                    + seq![self.flags] + self.payload@.subrange(0, i as int),
            decreases self.payload@.len() - i,
        {
            bytes.push(self.payload[i]);
            assert(self.payload@.subrange(0, i + 1) =~= self.payload@.subrange(0, i as int)
                + seq![self.payload@[i as int]]);
            i += 1;
        }
        assert(self.payload@.subrange(0, self.payload@.len() as int) =~= self.payload@);
        assert(bytes@ =~= spec_encode(self@));
        bytes
    }

    /// Deserializes a byte slice. Succeeds exactly on byte sequences that
    /// are long enough for a header and whose flag byte has no reserved
    /// bit set; anything shorter or stranger is a malformed segment.
    pub fn from_bytes(bytes: &[u8]) -> (r: Result<StyxPacket, StyxError>)
        ensures
            r is Ok <==> wire_valid(bytes@),
            r matches Ok(p) ==> p@ == spec_parse(bytes@),
            r matches Err(e) ==> e == StyxError::MalformedSegment,
    {
        if bytes.len() < HEADER_SIZE {
            return Err(StyxError::MalformedSegment);
        }
        let flags = bytes[8];
        if flags >= 8 {
            return Err(StyxError::MalformedSegment);
        }
        let sequence_number = read_u32_be(bytes, 0);
        let ack_number = read_u32_be(bytes, 4);
        let mut payload: Vec<u8> = Vec::new();
        let mut i: usize = HEADER_SIZE;
        while i < bytes.len()
            invariant
                HEADER_SIZE <= i <= bytes@.len(),
                payload@ == bytes@.subrange(HEADER_SIZE as int, i as int),
            decreases bytes@.len() - i,
        {
            payload.push(bytes[i]);
            assert(bytes@.subrange(HEADER_SIZE as int, i + 1) =~= bytes@.subrange(
                HEADER_SIZE as int, i as int) + seq![bytes@[i as int]]);
            i += 1;
        }
        let p = StyxPacket { sequence_number, ack_number, flags, payload };
        assert(p@ =~= spec_parse(bytes@));
        Ok(p)
    }
}

} // verus!
