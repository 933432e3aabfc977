//! Squares 0..64, laid out rank-major: square = rank * 8 + file,
//! rank 0 being White's first rank and file 0 the a-file.

use vstd::prelude::*;

verus! {

/// ASCII code of the letter `a`.
pub const FILE_A_LETTER: u8 = 97;

/// ASCII code of the digit `1`.
pub const RANK_1_DIGIT: u8 = 49;

pub open spec fn spec_file(sq: u8) -> u8 {
    sq % 8
}

pub open spec fn spec_rank(sq: u8) -> u8 {
    sq / 8
}

#[verifier::when_used_as_spec(spec_file)]
pub fn file(sq: u8) -> (r: u8)
    ensures
        r == spec_file(sq),
{
    sq % 8
}

#[verifier::when_used_as_spec(spec_rank)]
pub fn rank(sq: u8) -> (r: u8)
    ensures
        r == spec_rank(sq),
{
    sq / 8
}

pub open spec fn spec_square_at(rank: u8, file: u8) -> u8
    recommends
        rank < 8,
        file < 8,
{
    (rank * 8 + file) as u8
}

#[verifier::when_used_as_spec(spec_square_at)]
pub fn square_at(rank: u8, file: u8) -> (r: u8)
    requires
        rank < 8,
        file < 8,
    ensures
        r == spec_square_at(rank, file),
        r < 64,
        spec_rank(r) == rank,
        spec_file(r) == file,
{
    rank * 8 + file
}

/// The square with the same file on the vertically mirrored rank.
pub open spec fn spec_mirror(sq: u8) -> u8
    recommends
        sq < 64,
{
    ((7 - spec_rank(sq)) * 8 + spec_file(sq)) as u8
}

#[verifier::when_used_as_spec(spec_mirror)]
pub fn mirror_square(sq: u8) -> (r: u8)
    requires
        sq < 64,
    ensures
        r == spec_mirror(sq),
        r < 64,
{
    (7 - sq / 8) * 8 + sq % 8
}

/// Mirroring twice gives the square back.
pub proof fn lemma_mirror_involution(sq: u8)
    requires
        sq < 64,
    ensures
        spec_mirror(sq) < 64,
        spec_mirror(spec_mirror(sq)) == sq,
        spec_rank(spec_mirror(sq)) == 7 - spec_rank(sq),
        spec_file(spec_mirror(sq)) == spec_file(sq),
{
}

/// The two ASCII bytes naming the square, file letter then rank digit.
pub open spec fn spec_square_bytes(sq: u8) -> Seq<u8>
    recommends
        sq < 64,
{
    seq![(FILE_A_LETTER + spec_file(sq)) as u8, (RANK_1_DIGIT + spec_rank(sq)) as u8]
}

pub fn square_bytes(sq: u8, out: &mut Vec<u8>)
    requires
        sq < 64,
    ensures
        final(out)@ == old(out)@ + spec_square_bytes(sq),
{
    out.push(FILE_A_LETTER + sq % 8);
    out.push(RANK_1_DIGIT + sq / 8);
    assert(out@ =~= old(out)@ + spec_square_bytes(sq));
}

/// Parse two ASCII bytes as a square; inverse of `spec_square_bytes`.
pub open spec fn spec_parse_square(f: u8, r: u8) -> Option<u8> {
    if FILE_A_LETTER <= f < FILE_A_LETTER + 8 && RANK_1_DIGIT <= r < RANK_1_DIGIT + 8 {
        Some(spec_square_at((r - RANK_1_DIGIT) as u8, (f - FILE_A_LETTER) as u8))
    } else {
        None
    }
}

pub fn parse_square(f: u8, r: u8) -> (res: Option<u8>)
    ensures
        res == spec_parse_square(f, r),
        res matches Some(sq) ==> sq < 64,
{
    if FILE_A_LETTER <= f && f < FILE_A_LETTER + 8 && RANK_1_DIGIT <= r && r < RANK_1_DIGIT + 8 {
        Some(square_at(r - RANK_1_DIGIT, f - FILE_A_LETTER))
    } else {
        None
    }
}

/// Printing a square and parsing the two bytes back is the identity.
pub proof fn lemma_square_bytes_round_trip(sq: u8)
    requires
        sq < 64,
    ensures
        spec_parse_square(spec_square_bytes(sq)[0], spec_square_bytes(sq)[1]) == Some(sq),
{
}

} // verus!
