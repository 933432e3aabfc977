//! The evaluator: material plus piece-square placement, scored from
//! the side to move's perspective, in centipawns.

use vstd::prelude::*;
use crate::board::Board;
use crate::piece::{Color, Piece, PieceKind};
use crate::square::{mirror_square, spec_mirror};

verus! {

/// Material worth of a piece kind, in centipawns.
pub open spec fn spec_piece_value(kind: PieceKind) -> i32 {
    match kind {
        PieceKind::Pawn => 100i32,
        PieceKind::Knight => 300i32,
        PieceKind::Bishop => 300i32,
        PieceKind::Rook => 500i32,
        PieceKind::Queen => 900i32,
        PieceKind::King => 10000i32,
    }
}

#[verifier::when_used_as_spec(spec_piece_value)]
pub fn piece_value(kind: PieceKind) -> (r: i32)
    ensures
        r == spec_piece_value(kind),
{
    match kind {
        PieceKind::Pawn => 100i32,
        PieceKind::Knight => 300i32,
        PieceKind::Bishop => 300i32,
        PieceKind::Rook => 500i32,
        PieceKind::Queen => 900i32,
        PieceKind::King => 10000i32,
    }
}

pub open spec fn spec_pawn_table(sq: u8) -> i32 {
    if sq >= 64 {
        0
    } else {
        match sq {
            0 => 0i32,
            1 => 0i32,
            2 => 0i32,
            3 => 0i32,
            4 => 0i32,
            5 => 0i32,
            6 => 0i32,
            7 => 0i32,
            8 => 0i32,
            9 => 0i32,
            10 => 0i32,
            11 => -10i32,
            12 => -10i32,
            13 => 0i32,
            14 => 0i32,
            15 => 0i32,
            16 => 0i32,
            17 => 0i32,
            18 => 0i32,
            19 => 5i32,
            20 => 5i32,
            21 => 0i32,
            22 => 0i32,
            23 => 0i32,
            24 => 5i32,
            25 => 5i32,
            26 => 10i32,
            27 => 20i32,
            28 => 20i32,
            29 => 5i32,
            30 => 5i32,
            31 => 5i32,
            32 => 10i32,
            33 => 10i32,
            34 => 10i32,
            35 => 20i32,
            36 => 20i32,
            37 => 10i32,
            38 => 10i32,
            39 => 10i32,
            40 => 20i32,
            41 => 20i32,
            42 => 20i32,
            43 => 30i32,
            44 => 30i32,
            45 => 30i32,
            46 => 20i32,
            47 => 20i32,
            48 => 30i32,
            49 => 30i32,
            50 => 30i32,
            51 => 40i32,
            52 => 40i32,
            53 => 30i32,
            54 => 30i32,
            55 => 30i32,
            56 => 90i32,
            57 => 90i32,
            58 => 90i32,
            59 => 90i32,
            60 => 90i32,
            61 => 90i32,
            62 => 90i32,
            _ => 90i32,
        }
    }
}

#[verifier::when_used_as_spec(spec_pawn_table)]
#[verifier::rlimit(30)]
pub fn pawn_table(sq: u8) -> (r: i32)
    ensures
        r == spec_pawn_table(sq),
{
    if sq >= 64 {
        0
    } else {
        match sq {
            0 => 0i32,
            1 => 0i32,
            2 => 0i32,
            3 => 0i32,
            4 => 0i32,
            5 => 0i32,
            6 => 0i32,
            7 => 0i32,
            8 => 0i32,
            9 => 0i32,
            10 => 0i32,
            11 => -10i32,
            12 => -10i32,
            13 => 0i32,
            14 => 0i32,
            15 => 0i32,
            16 => 0i32,
            17 => 0i32,
            18 => 0i32,
            19 => 5i32,
            20 => 5i32,
            21 => 0i32,
            22 => 0i32,
            23 => 0i32,
            24 => 5i32,
            25 => 5i32,
            26 => 10i32,
            27 => 20i32,
            28 => 20i32,
            29 => 5i32,
            30 => 5i32,
            31 => 5i32,
            32 => 10i32,
            33 => 10i32,
            34 => 10i32,
            35 => 20i32,
            36 => 20i32,
            37 => 10i32,
            38 => 10i32,
            39 => 10i32,
            40 => 20i32,
            41 => 20i32,
            42 => 20i32,
            43 => 30i32,
            44 => 30i32,
            45 => 30i32,
            46 => 20i32,
            47 => 20i32,
            48 => 30i32,
            49 => 30i32,
            50 => 30i32,
            51 => 40i32,
            52 => 40i32,
            53 => 30i32,
            54 => 30i32,
            55 => 30i32,
            56 => 90i32,
            57 => 90i32,
            58 => 90i32,
            59 => 90i32,
            60 => 90i32,
            61 => 90i32,
            62 => 90i32,
            _ => 90i32,
        }
    }
}

pub open spec fn spec_knight_table(sq: u8) -> i32 {
    if sq >= 64 {
        0
    } else {
        match sq {
            0 => -5i32,
            1 => -10i32,
            2 => 0i32,
            3 => 0i32,
            4 => 0i32,
            5 => 0i32,
            6 => -10i32,
            7 => -5i32,
            8 => -5i32,
            9 => 0i32,
            10 => 0i32,
            11 => 0i32,
            12 => 0i32,
            13 => 0i32,
            14 => 0i32,
            15 => -5i32,
            16 => -5i32,
            17 => 5i32,
            18 => 20i32,
            19 => 10i32,
            20 => 10i32,
            21 => 20i32,
            22 => 5i32,
            23 => -5i32,
            24 => -5i32,
            25 => 10i32,
            26 => 20i32,
            27 => 30i32,
            28 => 30i32,
            29 => 20i32,
            30 => 10i32,
            31 => -5i32,
            32 => -5i32,
            33 => 10i32,
            34 => 20i32,
            35 => 30i32,
            36 => 30i32,
            37 => 20i32,
            38 => 10i32,
            39 => -5i32,
            40 => -5i32,
            41 => 5i32,
            42 => 20i32,
            43 => 20i32,
            44 => 20i32,
            45 => 20i32,
            46 => 5i32,
            47 => -5i32,
            48 => -5i32,
            49 => 0i32,
            50 => 0i32,
            51 => 10i32,
            52 => 10i32,
            53 => 0i32,
            54 => 0i32,
            55 => -5i32,
            56 => -5i32,
            57 => 0i32,
            58 => 0i32,
            59 => 0i32,
            60 => 0i32,
            61 => 0i32,
            62 => 0i32,
            _ => -5i32,
        }
    }
}

#[verifier::when_used_as_spec(spec_knight_table)]
#[verifier::rlimit(30)]
pub fn knight_table(sq: u8) -> (r: i32)
    ensures
        r == spec_knight_table(sq),
{
    if sq >= 64 {
        0
    } else {
        match sq {
            0 => -5i32,
            1 => -10i32,
            2 => 0i32,
            3 => 0i32,
            4 => 0i32,
            5 => 0i32,
            6 => -10i32,
            7 => -5i32,
            8 => -5i32,
            9 => 0i32,
            10 => 0i32,
            11 => 0i32,
            12 => 0i32,
            13 => 0i32,
            14 => 0i32,
            15 => -5i32,
            16 => -5i32,
            17 => 5i32,
            18 => 20i32,
            19 => 10i32,
            20 => 10i32,
            21 => 20i32,
            22 => 5i32,
            23 => -5i32,
            24 => -5i32,
            25 => 10i32,
            26 => 20i32,
            27 => 30i32,
            28 => 30i32,
            29 => 20i32,
            30 => 10i32,
            31 => -5i32,
            32 => -5i32,
            33 => 10i32,
            34 => 20i32,
            35 => 30i32,
            36 => 30i32,
            37 => 20i32,
            38 => 10i32,
            39 => -5i32,
            40 => -5i32,
            41 => 5i32,
            42 => 20i32,
            43 => 20i32,
            44 => 20i32,
            45 => 20i32,
            46 => 5i32,
            47 => -5i32,
            48 => -5i32,
            49 => 0i32,
            50 => 0i32,
            51 => 10i32,
            52 => 10i32,
            53 => 0i32,
            54 => 0i32,
            55 => -5i32,
            56 => -5i32,
            57 => 0i32,
            58 => 0i32,
            59 => 0i32,
            60 => 0i32,
            61 => 0i32,
            62 => 0i32,
            _ => -5i32,
        }
    }
}

pub open spec fn spec_bishop_table(sq: u8) -> i32 {
    if sq >= 64 {
        0
    } else {
        match sq {
            0 => 0i32,
            1 => 0i32,
            2 => -10i32,
            3 => 0i32,
            4 => 0i32,
            5 => -10i32,
            6 => 0i32,
            7 => 0i32,
            8 => 0i32,
            9 => 30i32,
            10 => 0i32,
            11 => 0i32,
            12 => 0i32,
            13 => 0i32,
            14 => 30i32,
            15 => 0i32,
            16 => 0i32,
            17 => 10i32,
            18 => 0i32,
            19 => 0i32,
            20 => 0i32,
            21 => 0i32,
            22 => 10i32,
            23 => 0i32,
            24 => 0i32,
            25 => 0i32,
            26 => 10i32,
            27 => 20i32,
            28 => 20i32,
            29 => 10i32,
            30 => 0i32,
            31 => 0i32,
            32 => 0i32,
            33 => 0i32,
            34 => 10i32,
            35 => 20i32,
            36 => 20i32,
            37 => 10i32,
            38 => 0i32,
            39 => 0i32,
            40 => 0i32,
            41 => 0i32,
            42 => 0i32,
            43 => 10i32,
            44 => 10i32,
            45 => 0i32,
            46 => 0i32,
            47 => 0i32,
            48 => 0i32,
            49 => 0i32,
            50 => 0i32,
            51 => 0i32,
            52 => 0i32,
            53 => 0i32,
            54 => 0i32,
            55 => 0i32,
            56 => 0i32,
            57 => 0i32,
            58 => 0i32,
            59 => 0i32,
            60 => 0i32,
            61 => 0i32,
            62 => 0i32,
            _ => 0i32,
        }
    }
}

#[verifier::when_used_as_spec(spec_bishop_table)]
#[verifier::rlimit(30)]
pub fn bishop_table(sq: u8) -> (r: i32)
    ensures
        r == spec_bishop_table(sq),
{
    if sq >= 64 {
        0
    } else {
        match sq {
            0 => 0i32,
            1 => 0i32,
            2 => -10i32,
            3 => 0i32,
            4 => 0i32,
            5 => -10i32,
            6 => 0i32,
            7 => 0i32,
            8 => 0i32,
            9 => 30i32,
            10 => 0i32,
            11 => 0i32,
            12 => 0i32,
            13 => 0i32,
            14 => 30i32,
            15 => 0i32,
            16 => 0i32,
            17 => 10i32,
            18 => 0i32,
            19 => 0i32,
            20 => 0i32,
            21 => 0i32,
            22 => 10i32,
            23 => 0i32,
            24 => 0i32,
            25 => 0i32,
            26 => 10i32,
            27 => 20i32,
            28 => 20i32,
            29 => 10i32,
            30 => 0i32,
            31 => 0i32,
            32 => 0i32,
            33 => 0i32,
            34 => 10i32,
            35 => 20i32,
            36 => 20i32,
            37 => 10i32,
            38 => 0i32,
            39 => 0i32,
            40 => 0i32,
            41 => 0i32,
            42 => 0i32,
            43 => 10i32,
            44 => 10i32,
            45 => 0i32,
            46 => 0i32,
            47 => 0i32,
            48 => 0i32,
            49 => 0i32,
            50 => 0i32,
            51 => 0i32,
            52 => 0i32,
            53 => 0i32,
            54 => 0i32,
            55 => 0i32,
            56 => 0i32,
            57 => 0i32,
            58 => 0i32,
            59 => 0i32,
            60 => 0i32,
            61 => 0i32,
            62 => 0i32,
            _ => 0i32,
        }
    }
}

pub open spec fn spec_rook_table(sq: u8) -> i32 {
    if sq >= 64 {
        0
    } else {
        match sq {
            0 => 0i32,
            1 => 0i32,
            2 => 0i32,
            3 => 20i32,
            4 => 20i32,
            5 => 0i32,
            6 => 0i32,
            7 => 0i32,
            8 => 0i32,
            9 => 0i32,
            10 => 10i32,
            11 => 20i32,
            12 => 20i32,
            13 => 10i32,
            14 => 0i32,
            15 => 0i32,
            16 => 0i32,
            17 => 0i32,
            18 => 10i32,
            19 => 20i32,
            20 => 20i32,
            21 => 10i32,
            22 => 0i32,
            23 => 0i32,
            24 => 0i32,
            25 => 0i32,
            26 => 10i32,
            27 => 20i32,
            28 => 20i32,
            29 => 10i32,
            30 => 0i32,
            31 => 0i32,
            32 => 0i32,
            33 => 0i32,
            34 => 10i32,
            35 => 20i32,
            36 => 20i32,
            37 => 10i32,
            38 => 0i32,
            39 => 0i32,
            40 => 0i32,
            41 => 0i32,
            42 => 10i32,
            43 => 20i32,
            44 => 20i32,
            45 => 10i32,
            46 => 0i32,
            47 => 0i32,
            48 => 50i32,
            49 => 50i32,
            50 => 50i32,
            51 => 50i32,
            52 => 50i32,
            53 => 50i32,
            54 => 50i32,
            55 => 50i32,
            56 => 50i32,
            57 => 50i32,
            58 => 50i32,
            59 => 50i32,
            60 => 50i32,
            61 => 50i32,
            62 => 50i32,
            _ => 50i32,
        }
    }
}

#[verifier::when_used_as_spec(spec_rook_table)]
#[verifier::rlimit(30)]
pub fn rook_table(sq: u8) -> (r: i32)
    ensures
        r == spec_rook_table(sq),
{
    if sq >= 64 {
        0
    } else {
        match sq {
            0 => 0i32,
            1 => 0i32,
            2 => 0i32,
            3 => 20i32,
            4 => 20i32,
            5 => 0i32,
            6 => 0i32,
            7 => 0i32,
            8 => 0i32,
            9 => 0i32,
            10 => 10i32,
            11 => 20i32,
            12 => 20i32,
            13 => 10i32,
            14 => 0i32,
            15 => 0i32,
            16 => 0i32,
            17 => 0i32,
            18 => 10i32,
            19 => 20i32,
            20 => 20i32,
            21 => 10i32,
            22 => 0i32,
            23 => 0i32,
            24 => 0i32,
            25 => 0i32,
            26 => 10i32,
            27 => 20i32,
            28 => 20i32,
            29 => 10i32,
            30 => 0i32,
            31 => 0i32,
            32 => 0i32,
            33 => 0i32,
            34 => 10i32,
            35 => 20i32,
            36 => 20i32,
            37 => 10i32,
            38 => 0i32,
            39 => 0i32,
            40 => 0i32,
            41 => 0i32,
            42 => 10i32,
            43 => 20i32,
            44 => 20i32,
            45 => 10i32,
            46 => 0i32,
            47 => 0i32,
            48 => 50i32,
            49 => 50i32,
            50 => 50i32,
            51 => 50i32,
            52 => 50i32,
            53 => 50i32,
            54 => 50i32,
            55 => 50i32,
            56 => 50i32,
            57 => 50i32,
            58 => 50i32,
            59 => 50i32,
            60 => 50i32,
            61 => 50i32,
            62 => 50i32,
            _ => 50i32,
        }
    }
}

pub open spec fn spec_king_table(sq: u8) -> i32 {
    if sq >= 64 {
        0
    } else {
        match sq {
            0 => 0i32,
            1 => 0i32,
            2 => 5i32,
            3 => 0i32,
            4 => -15i32,
            5 => 0i32,
            6 => 10i32,
            7 => 0i32,
            8 => 0i32,
            9 => 5i32,
            10 => 5i32,
            11 => -5i32,
            12 => -5i32,
            13 => 0i32,
            14 => 5i32,
            15 => 0i32,
            16 => 0i32,
            17 => 0i32,
            18 => 5i32,
            19 => 10i32,
            20 => 10i32,
            21 => 5i32,
            22 => 0i32,
            23 => 0i32,
            24 => 0i32,
            25 => 5i32,
            26 => 10i32,
            27 => 20i32,
            28 => 20i32,
            29 => 10i32,
            30 => 5i32,
            31 => 0i32,
            32 => 0i32,
            33 => 5i32,
            34 => 10i32,
            35 => 20i32,
            36 => 20i32,
            37 => 10i32,
            38 => 5i32,
            39 => 0i32,
            40 => 0i32,
            41 => 5i32,
            42 => 5i32,
            43 => 10i32,
            44 => 10i32,
            45 => 5i32,
            46 => 5i32,
            47 => 0i32,
            48 => 0i32,
            49 => 0i32,
            50 => 5i32,
            51 => 5i32,
            52 => 5i32,
            53 => 5i32,
            54 => 0i32,
            55 => 0i32,
            56 => 0i32,
            57 => 0i32,
            58 => 0i32,
            59 => 0i32,
            60 => 0i32,
            61 => 0i32,
            62 => 0i32,
            _ => 0i32,
        }
    }
}

#[verifier::when_used_as_spec(spec_king_table)]
#[verifier::rlimit(30)]
pub fn king_table(sq: u8) -> (r: i32)
    ensures
        r == spec_king_table(sq),
{
    if sq >= 64 {
        0
    } else {
        match sq {
            0 => 0i32,
            1 => 0i32,
            2 => 5i32,
            3 => 0i32,
            4 => -15i32,
            5 => 0i32,
            6 => 10i32,
            7 => 0i32,
            8 => 0i32,
            9 => 5i32,
            10 => 5i32,
            11 => -5i32,
            12 => -5i32,
            13 => 0i32,
            14 => 5i32,
            15 => 0i32,
            16 => 0i32,
            17 => 0i32,
            18 => 5i32,
            19 => 10i32,
            20 => 10i32,
            21 => 5i32,
            22 => 0i32,
            23 => 0i32,
            24 => 0i32,
            25 => 5i32,
            26 => 10i32,
            27 => 20i32,
            28 => 20i32,
            29 => 10i32,
            30 => 5i32,
            31 => 0i32,
            32 => 0i32,
            33 => 5i32,
            34 => 10i32,
            35 => 20i32,
            36 => 20i32,
            37 => 10i32,
            38 => 5i32,
            39 => 0i32,
            40 => 0i32,
            41 => 5i32,
            42 => 5i32,
            43 => 10i32,
            44 => 10i32,
            45 => 5i32,
            46 => 5i32,
            47 => 0i32,
            48 => 0i32,
            49 => 0i32,
            50 => 5i32,
            51 => 5i32,
            52 => 5i32,
            53 => 5i32,
            54 => 0i32,
            55 => 0i32,
            56 => 0i32,
            57 => 0i32,
            58 => 0i32,
            59 => 0i32,
            60 => 0i32,
            61 => 0i32,
            62 => 0i32,
            _ => 0i32,
        }
    }
}

/// The placement bonus of a kind on a square, from White's side of
/// the board; the queen's table is zero.
pub open spec fn spec_piece_square_value(kind: PieceKind, sq: u8) -> i32 {
    match kind {
        PieceKind::Pawn => spec_pawn_table(sq),
        PieceKind::Knight => spec_knight_table(sq),
        PieceKind::Bishop => spec_bishop_table(sq),
        PieceKind::Rook => spec_rook_table(sq),
        PieceKind::Queen => 0i32,
        PieceKind::King => spec_king_table(sq),
    }
}

#[verifier::when_used_as_spec(spec_piece_square_value)]
pub fn piece_square_value(kind: PieceKind, sq: u8) -> (r: i32)
    ensures
        r == spec_piece_square_value(kind, sq),
{
    match kind {
        PieceKind::Pawn => pawn_table(sq),
        PieceKind::Knight => knight_table(sq),
        PieceKind::Bishop => bishop_table(sq),
        PieceKind::Rook => rook_table(sq),
        PieceKind::Queen => 0i32,
        PieceKind::King => king_table(sq),
    }
}

/// Every placement bonus lies between -15 and 90.
pub proof fn lemma_psq_bounds(kind: PieceKind, sq: u8)
    ensures
        -15 <= spec_piece_square_value(kind, sq) <= 90,
{
}

/// What the piece on `sq` adds to `c`'s score: its material value
/// plus its placement bonus, Black reading the tables through the
/// vertical mirror.
pub open spec fn spec_square_score(b: Board, c: Color, sq: u8) -> int
    recommends
        sq < 64,
{
    match b.spec_piece_at(sq) {
        Some(p) => if p.color == c {
            spec_piece_value(p.kind) + spec_piece_square_value(
                p.kind,
                if c == Color::White {
                    sq
                } else {
                    spec_mirror(sq)
                },
            )
        } else {
            0
        },
        None => 0,
    }
}

/// `c`'s score over the squares below `n`.
pub open spec fn spec_score_upto(b: Board, c: Color, n: int) -> int
    decreases n,
{
    if n <= 0 {
        0
    } else {
        spec_score_upto(b, c, n - 1) + spec_square_score(b, c, (n - 1) as u8)
    }
}

pub open spec fn spec_color_score(b: Board, c: Color) -> int {
    spec_score_upto(b, c, 64)
}

/// The evaluation: White's score minus Black's, negated when Black is
/// to move, so that the side to move maximizes it.
pub open spec fn spec_eval(b: Board) -> int {
    let e = spec_color_score(b, Color::White) - spec_color_score(b, Color::Black);
    if b.side_to_move == Color::White {
        e
    } else {
        -e
    }
}

/// One square's contribution stays within one piece's worth.
proof fn lemma_square_score_bounds(b: Board, c: Color, sq: u8)
    requires
        sq < 64,
    ensures
        0 <= spec_square_score(b, c, sq) <= 10090,
{
    match b.spec_piece_at(sq) {
        Some(p) => {
            if p.color == c {
                let psq_sq: u8 = if c == Color::White {
                    sq
                } else {
                    spec_mirror(sq)
                };
                lemma_psq_bounds(p.kind, psq_sq);
            }
        },
        None => {},
    }
}

proof fn lemma_score_upto_bounds(b: Board, c: Color, n: int)
    requires
        0 <= n <= 64,
    ensures
        0 <= spec_score_upto(b, c, n) <= n * 10090,
    decreases n,
{
    if n > 0 {
        lemma_score_upto_bounds(b, c, n - 1);
        lemma_square_score_bounds(b, c, (n - 1) as u8);
    }
}

/// Evaluate a position for its side to move.
pub fn evaluate(board: &Board) -> (r: i32)
    ensures
        r == spec_eval(*board),
        -650_000 <= r <= 650_000,
{
    let mut white: i32 = 0;
    let mut black: i32 = 0;
    let mut sq: u8 = 0;
    while sq < 64
        invariant
            sq <= 64,
            white == spec_score_upto(*board, Color::White, sq as int),
            black == spec_score_upto(*board, Color::Black, sq as int),
            0 <= white <= sq as int * 10090,
            0 <= black <= sq as int * 10090,
        decreases 64 - sq,
    {
        match board.piece(sq) {
            Some(p) => {
                let table_sq = if p.color == Color::White {
                    sq
                } else {
                    mirror_square(sq)
                };
                let gain = piece_value(p.kind) + piece_square_value(p.kind, table_sq);
                proof {
                    lemma_psq_bounds(p.kind, table_sq);
                    lemma_square_score_bounds(*board, Color::White, sq);
                    lemma_square_score_bounds(*board, Color::Black, sq);
                }
                if p.color == Color::White {
                    white = white + gain;
                } else {
                    black = black + gain;
                }
            },
            None => {
                proof {
                    lemma_square_score_bounds(*board, Color::White, sq);
                    lemma_square_score_bounds(*board, Color::Black, sq);
                }
            },
        }
        sq = sq + 1;
    }
    let e = white - black;
    if board.side_to_move == Color::White {
        e
    } else {
        -e
    }
}

} // verus!
