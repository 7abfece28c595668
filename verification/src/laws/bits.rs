//! Masks, bit by bit.

use vstd::prelude::*;

verus! {

/// The bit `i` of `x` is set.
pub open spec fn has_bit(x: u64, i: u64) -> bool {
    i < 64 && x & (1u64 << i) != 0
}

/// Every bit that is set in `part` is set in `whole`.
pub open spec fn covers(whole: u64, part: u64) -> bool {
    forall|i: u64| #[trigger] has_bit(part, i) ==> has_bit(whole, i)
}

/// A number that is not 0 has a bit that is set.
pub proof fn lemma_some_bit(x: u64) -> (i: u64)
    requires
        x != 0,
    ensures
        has_bit(x, i),
    decreases x,
{
    if x & 1 != 0 {
        assert(1u64 << 0u64 == 1u64) by (bit_vector);
        0
    } else {
        assert(x & 1 == 0 && x != 0 ==> x >> 1u64 != 0 && x >> 1u64 < x) by (bit_vector);
        let j = lemma_some_bit(x >> 1u64);
        assert(j < 64 && (x >> 1u64) & (1u64 << j) != 0 ==> j + 1 < 64 && x & (1u64 << ((j
            + 1) as u64)) != 0) by (bit_vector);
        (j + 1) as u64
    }
}

/// An intersection has the bits that both numbers have.
pub proof fn lemma_bit_of_and(a: u64, b: u64, i: u64)
    ensures
        has_bit(a & b, i) <==> has_bit(a, i) && has_bit(b, i),
{
    assert(i < 64 ==> (((a & b) & (1u64 << i) != 0) <==> (a & (1u64 << i) != 0 && b & (1u64 << i)
        != 0))) by (bit_vector);
}

/// Being a subset of bits, said by intersection and bit by bit.
pub proof fn lemma_covers(whole: u64, part: u64)
    ensures
        covers(whole, part) <==> whole & part == part,
        covers(whole, part) <==> part & whole == part,
{
    assert(whole & part == part & whole) by (bit_vector);
    if whole & part == part {
        assert forall|i: u64| #[trigger] has_bit(part, i) implies has_bit(whole, i) by {
            lemma_bit_of_and(whole, part, i);
        }
    } else {
        let missing = part & !whole;
        assert(whole & part != part ==> part & !whole != 0) by (bit_vector);
        let i = lemma_some_bit(missing);
        assert(i < 64 && (part & !whole) & (1u64 << i) != 0 ==> part & (1u64 << i) != 0 && whole & (
        1u64 << i) == 0) by (bit_vector);
        assert(has_bit(part, i) && !has_bit(whole, i));
    }
}

/// Two numbers with the same bits are the same.
pub proof fn lemma_same_bits(a: u64, b: u64)
    requires
        covers(a, b),
        covers(b, a),
    ensures
        a == b,
{
    lemma_covers(a, b);
    lemma_covers(b, a);
}

pub proof fn lemma_extremes(i: u64)
    ensures
        !has_bit(0, i),
        has_bit(u64::MAX, i) <==> i < 64,
{
    assert(i < 64 ==> 0u64 & (1u64 << i) == 0 && 0xFFFF_FFFF_FFFF_FFFFu64 & (1u64 << i) != 0)
        by (bit_vector);
}

} // verus!
