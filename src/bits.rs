//! Facts about single bits of a byte, shared by the codec and the channel mask.
use vstd::prelude::*;

verus! {

/// Bit `i` (0 = least significant) of byte `b`.
pub open spec fn bit(b: u8, i: u8) -> bool {
    (b >> i) & 1u8 == 1u8
}

/// Setting bit `k` of `b` with `|` leaves every other bit as it was.
pub proof fn lemma_or_bit(b: u8, k: u8)
    by (bit_vector)
    requires
        k < 8,
    ensures
        forall|j: u8| j < 8 ==> #[trigger] bit(b | (1u8 << k), j) == (j == k || bit(b, j)),
{
}

/// Clearing bit `k` of `b` with `& !` leaves every other bit as it was.
pub proof fn lemma_clear_bit(b: u8, k: u8)
    by (bit_vector)
    requires
        k < 8,
    ensures
        forall|j: u8| j < 8 ==> #[trigger] bit(b & !(1u8 << k), j) == (j != k && bit(b, j)),
{
}

/// Testing bit `k` with a one-bit mask agrees with `bit`.
pub proof fn lemma_test_bit(b: u8, k: u8)
    by (bit_vector)
    requires
        k < 8,
    ensures
        (b & (1u8 << k) != 0) == bit(b, k),
{
}

/// Every bit of 0xff is set.
pub proof fn lemma_all_ones()
    by (bit_vector)
    ensures
        forall|j: u8| j < 8 ==> #[trigger] bit(0xffu8, j),
{
}

/// `b` with bit `k` set to `v` and every other bit kept.
pub fn with_bit(b: u8, k: u8, v: bool) -> (r: u8)
    requires
        k < 8,
    ensures
        forall|j: u8| j < 8 ==> #[trigger] bit(r, j) == if j == k {
            v
        } else {
            bit(b, j)
        },
{
    proof {
        lemma_or_bit(b, k);
        lemma_clear_bit(b, k);
    }
    if v {
        b | (1u8 << k)
    } else {
        b & !(1u8 << k)
    }
}

/// `b` with its low four bits replaced by `v`.
pub fn with_low_nibble(b: u8, v: u8) -> (r: u8)
    requires
        v <= 0x0f,
    ensures
        r & 0x0f == v,
        r >> 4u8 == b >> 4u8,
        r == (b & 0xf0) | v,
{
    let r = (b & 0xf0) | v;
    assert(r & 0x0f == v && r >> 4u8 == b >> 4u8) by (bit_vector)
        requires
            v <= 0x0f,
            r == (b & 0xf0) | v,
    ;
    r
}

/// `b` with its high four bits replaced by `v`.
pub fn with_high_nibble(b: u8, v: u8) -> (r: u8)
    requires
        v <= 0x0f,
    ensures
        r >> 4u8 == v,
        r & 0x0f == b & 0x0f,
        r == (b & 0x0f) | (v << 4u8),
{
    let r = (b & 0x0f) | (v << 4u8);
    assert(r >> 4u8 == v && r & 0x0f == b & 0x0f) by (bit_vector)
        requires
            v <= 0x0f,
            r == (b & 0x0f) | (v << 4u8),
    ;
    r
}

} // verus!
