//! Serial-number arithmetic on 32-bit sequence numbers. Comparisons are
//! circular: `a` comes before `b` when the forward distance from `a` to
//! `b`, taken modulo 2^32, lies in the lower half of the space. Wrap
//! across 2^32 is legal everywhere.

use vstd::prelude::*;

verus! {

/// Half of the 32-bit sequence space; forward distances below it mean
/// "ahead", at or above it mean "behind".
pub const SEQ_HALF: u32 = 0x8000_0000;

/// The number of forward steps from `a` to `b`, modulo 2^32.
/// Always in `[0, 2^32)`.
pub open spec fn seq_distance(a: u32, b: u32) -> int {
    if b >= a {
        b - a
    } else {
        b - a + 0x1_0000_0000
    }
}

/// Serial-number order: `a` comes strictly before `b` when `b` lies a
/// positive distance of less than half the space ahead of `a`.
pub open spec fn seq_lt(a: u32, b: u32) -> bool {
    0 < seq_distance(a, b) < SEQ_HALF
}

/// Serial-number order, allowing equality.
pub open spec fn seq_le(a: u32, b: u32) -> bool {
    a == b || seq_lt(a, b)
}

/// The sequence number `k` steps ahead of `a`, modulo 2^32.
pub open spec fn seq_add(a: u32, k: int) -> u32
    recommends
        k >= 0,
{
    ((a + k) % 0x1_0000_0000) as u32
}

/// Advancing and measuring are inverse: the distance from `a` to
/// `a + k` is `k`, for every `k` below the size of the space.
pub proof fn lemma_seq_add_distance(a: u32, k: int)
    requires
        0 <= k < 0x1_0000_0000,
    ensures
        seq_distance(a, seq_add(a, k)) == k,
{
}

/// Measuring and advancing are inverse: stepping `a` forward by the
/// distance to `b` lands on `b`.
pub proof fn lemma_seq_distance_add(a: u32, b: u32)
    ensures
        seq_add(a, seq_distance(a, b)) == b,
{
}

/// Advancing twice is advancing by the sum of the steps.
pub proof fn lemma_seq_add_add(a: u32, j: int, k: int)
    requires
        0 <= j,
        0 <= k,
    ensures
        seq_add(seq_add(a, j), k) == seq_add(a, j + k),
{
    let s = seq_add(a, j);
    assert(s == (a + j) % 0x1_0000_0000);
    assert((s + k) % 0x1_0000_0000 == ((a + j) % 0x1_0000_0000 + k) % 0x1_0000_0000);
    assert(((a + j) % 0x1_0000_0000 + k) % 0x1_0000_0000 == (a + j + k) % 0x1_0000_0000) by {
        vstd::arithmetic::div_mod::lemma_add_mod_noop((a + j) as int, k, 0x1_0000_0000);
        vstd::arithmetic::div_mod::lemma_mod_twice((a + j) as int, 0x1_0000_0000);
        vstd::arithmetic::div_mod::lemma_mod_twice(k, 0x1_0000_0000);
        vstd::arithmetic::div_mod::lemma_add_mod_noop((a + j) as int, k % 0x1_0000_0000, 0x1_0000_0000);
    }
}

/// Two points measured from the same origin are as far apart as their
/// step counts.
pub proof fn lemma_seq_add_between(a: u32, j: int, k: int)
    requires
        0 <= j <= k < 0x1_0000_0000,
    ensures
        seq_distance(seq_add(a, j), seq_add(a, k)) == k - j,
{
    lemma_seq_add_add(a, j, k - j);
    lemma_seq_add_distance(seq_add(a, j), k - j);
}

/// Moving the origin `j` steps toward `b` shortens the distance by `j`.
pub proof fn lemma_seq_distance_shift(a: u32, b: u32, j: int)
    requires
        0 <= j <= seq_distance(a, b),
    ensures
        seq_distance(seq_add(a, j), b) == seq_distance(a, b) - j,
{
    let d = seq_distance(a, b);
    lemma_seq_distance_add(a, b);
    lemma_seq_add_add(a, j, d - j);
    lemma_seq_add_distance(seq_add(a, j), d - j);
}

/// The sequence number `k` steps ahead of `a`.
pub fn seq_advance(a: u32, k: u32) -> (r: u32)
    ensures
        r == seq_add(a, k as int),
{
    a.wrapping_add(k)
}

/// The sequence number right after `a`.
pub fn seq_next(a: u32) -> (r: u32)
    ensures
        r == seq_add(a, 1),
{
    a.wrapping_add(1)
}

/// The forward distance from `a` to `b`, modulo 2^32.
pub fn seq_sub(b: u32, a: u32) -> (d: u32)
    ensures
        d == seq_distance(a, b),
{
    b.wrapping_sub(a)
}

/// Whether `a` comes strictly before `b` in serial-number order.
pub fn seq_lt_exec(a: u32, b: u32) -> (r: bool)
    ensures
        r == seq_lt(a, b),
{
    let d = b.wrapping_sub(a);
    d != 0 && d < SEQ_HALF
}

/// Whether `a` comes before `b` or equals it, in serial-number order.
pub fn seq_le_exec(a: u32, b: u32) -> (r: bool)
    ensures
        r == seq_le(a, b),
{
    let d = b.wrapping_sub(a);
    d < SEQ_HALF
}

} // verus!
