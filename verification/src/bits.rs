//! Single-word bitboard primitives: testing, setting and clearing one
//! square's bit, and the lemmas the board proofs rest on.

use vstd::prelude::*;

verus! {

/// Bit `sq` of the mask is set.
pub open spec fn bit(bb: u64, sq: u64) -> bool {
    bb & (1u64 << sq) != 0
}

/// The mask with only bit `sq` set.
pub open spec fn sq_mask(sq: u64) -> u64 {
    1u64 << sq
}

/// The mask with bit `sq` set.
pub open spec fn set_bit(bb: u64, sq: u64) -> u64 {
    bb | (1u64 << sq)
}

/// The mask with bit `sq` cleared.
pub open spec fn clear_bit(bb: u64, sq: u64) -> u64 {
    bb & !(1u64 << sq)
}

/// Exactly one bit of the mask is set.
pub open spec fn single_bit(bb: u64) -> bool {
    bb != 0 && bb & ((bb - 1) as u64) == 0
}

pub fn test_bit(bb: u64, sq: u64) -> (r: bool)
    requires
        sq < 64,
    ensures
        r == bit(bb, sq),
{
    bb & (1u64 << sq) != 0
}

pub fn with_bit(bb: u64, sq: u64) -> (r: u64)
    requires
        sq < 64,
    ensures
        r == set_bit(bb, sq),
{
    bb | (1u64 << sq)
}

pub fn without_bit(bb: u64, sq: u64) -> (r: u64)
    requires
        sq < 64,
    ensures
        r == clear_bit(bb, sq),
{
    bb & !(1u64 << sq)
}

pub fn is_single_bit(bb: u64) -> (r: bool)
    ensures
        r == single_bit(bb),
{
    bb != 0 && bb & (bb - 1) == 0
}

/// Setting bit `i` sets that bit and keeps every other bit.
pub proof fn lemma_bit_set(bb: u64, i: u64, j: u64)
    by (bit_vector)
    requires
        i < 64,
        j < 64,
    ensures
        bit(set_bit(bb, i), j) == (i == j || bit(bb, j)),
{
}

/// Clearing bit `i` clears that bit and keeps every other bit.
pub proof fn lemma_bit_clear(bb: u64, i: u64, j: u64)
    by (bit_vector)
    requires
        i < 64,
        j < 64,
    ensures
        bit(clear_bit(bb, i), j) == (i != j && bit(bb, j)),
{
}

/// The empty mask has no bits.
pub proof fn lemma_bit_empty(j: u64)
    by (bit_vector)
    requires
        j < 64,
    ensures
        !bit(0, j),
{
}

/// Masking both sides of a disjoint pair keeps them disjoint.
pub proof fn lemma_disjoint_mask(a: u64, c: u64, m1: u64, m2: u64)
    by (bit_vector)
    requires
        a & c == 0,
    ensures
        (a & m1) & (c & m2) == 0,
        (a & m1) & c == 0,
        a & (c & m2) == 0,
{
}

/// Adding a bit that the other side lacks keeps a pair disjoint.
pub proof fn lemma_disjoint_grow(a: u64, c: u64, i: u64)
    by (bit_vector)
    requires
        i < 64,
        a & c == 0,
        !bit(c, i),
    ensures
        set_bit(a, i) & c == 0,
        c & set_bit(a, i) == 0,
{
}

/// A cleared bit is absent, whatever else the mask holds.
pub proof fn lemma_clear_absent(bb: u64, i: u64)
    by (bit_vector)
    requires
        i < 64,
    ensures
        !bit(clear_bit(bb, i), i),
        clear_bit(bb, i) & sq_mask(i) == 0,
{
}

/// One-bit masks: the mask of a square is a single bit at that square.
pub proof fn lemma_sq_mask(i: u64)
    by (bit_vector)
    requires
        i < 64,
    ensures
        single_bit(sq_mask(i)),
        bit(sq_mask(i), i),
        set_bit(0, i) == sq_mask(i),
        clear_bit(sq_mask(i), i) == 0,
{
}

/// A single-bit mask with a bit at `i` is the mask of `i`.
pub proof fn lemma_single_bit_at(bb: u64, i: u64)
    by (bit_vector)
    requires
        i < 64,
        single_bit(bb),
        bit(bb, i),
    ensures
        bb == sq_mask(i),
{
}

/// Testing a bit by shifting the mask or by shifting the bit agree.
pub proof fn lemma_shift_bit(a: u64, j: u64)
    by (bit_vector)
    requires
        j < 64,
    ensures
        ((a >> j) & 1 == 1) == bit(a, j),
{
}

/// A nonzero mask has a set bit.
pub proof fn lemma_nonzero_has_bit(a: u64)
    requires
        a != 0,
    ensures
        exists|j: u64| j < 64 && bit(a, j),
{
    let tz = vstd::std_specs::bits::u64_trailing_zeros(a) as u64;
    vstd::std_specs::bits::axiom_u64_trailing_zeros(a);
    lemma_shift_bit(a, tz);
    assert(tz < 64 && bit(a, tz));
}


/// Disjoint masks share no set bit.
pub proof fn lemma_disjoint_bit(a: u64, b: u64, i: u64)
    by (bit_vector)
    requires
        i < 64,
        a & b == 0,
        bit(a, i),
    ensures
        !bit(b, i),
{
}

/// Masking castling rights keeps them within their four bits and
/// never grants a right.
pub proof fn lemma_rights_mask(c: u8, m1: u8, m2: u8)
    by (bit_vector)
    requires
        c < 16,
    ensures
        (c & m1 & m2) < 16,
        (c & m1 & m2) & c == (c & m1 & m2),
{
}


/// A bit of an XOR is set where the operands differ.
pub proof fn lemma_xor_bit(a: u64, b: u64, j: u64)
    by (bit_vector)
    requires
        j < 64,
    ensures
        bit(a ^ b, j) == (bit(a, j) != bit(b, j)),
{
}

/// Different masks differ somewhere below 64.
pub proof fn lemma_bb_ext(a: u64, b: u64)
    requires
        forall|j: u64| j < 64 ==> bit(a, j) == bit(b, j),
    ensures
        a == b,
{
    if a != b {
        assert(a ^ b != 0) by (bit_vector)
            requires
                a != b,
        ;
        lemma_nonzero_has_bit(a ^ b);
        let j = choose|j: u64| j < 64 && bit(a ^ b, j);
        lemma_xor_bit(a, b, j);
    }
}

} // verus!
