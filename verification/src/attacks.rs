//! Square attack detection: whether a side pseudo-attacks a square,
//! pawns by their capture directions, leapers by offsets, sliders by
//! rays stopped at the first occupied square.

use vstd::prelude::*;
use crate::board::Board;
use crate::piece::{Color, Piece, PieceKind};
use crate::square::{spec_file, spec_rank};

verus! {

/// The square one (df, dr) step away, or None when the step leaves the
/// board.
pub open spec fn spec_offset(sq: u8, df: int, dr: int) -> Option<u8>
    recommends
        sq < 64,
{
    let f = spec_file(sq) + df;
    let r = spec_rank(sq) + dr;
    if 0 <= f < 8 && 0 <= r < 8 {
        Some((r * 8 + f) as u8)
    } else {
        None
    }
}

pub fn offset(sq: u8, df: i8, dr: i8) -> (res: Option<u8>)
    requires
        sq < 64,
        -8 <= df < 8,
        -8 <= dr < 8,
    ensures
        res == spec_offset(sq, df as int, dr as int),
        res matches Some(s) ==> s < 64,
{
    let f: i16 = (sq % 8) as i16 + df as i16;
    let r: i16 = (sq / 8) as i16 + dr as i16;
    if 0 <= f && f < 8 && 0 <= r && r < 8 {
        Some((r * 8 + f) as u8)
    } else {
        None
    }
}

/// A piece of `by` with the given kind stands one (df, dr) step away.
pub open spec fn spec_leaper_hit(b: Board, sq: u8, by: Color, kind: PieceKind, df: int, dr: int) -> bool
    recommends
        sq < 64,
{
    match spec_offset(sq, df, dr) {
        Some(s) => b.spec_piece_at(s) == Some(Piece { kind, color: by }),
        None => false,
    }
}

fn leaper_hit(b: &Board, sq: u8, by: Color, kind: PieceKind, df: i8, dr: i8) -> (r: bool)
    requires
        sq < 64,
        -8 <= df < 8,
        -8 <= dr < 8,
    ensures
        r == spec_leaper_hit(*b, sq, by, kind, df as int, dr as int),
{
    match offset(sq, df, dr) {
        Some(s) => match b.piece(s) {
            Some(p) => p.kind == kind && p.color == by,
            None => false,
        },
        None => false,
    }
}

/// Walking from `sq` in direction (df, dr): the first occupied square
/// holds a piece of `by` whose kind is `k1` or `k2`.
pub open spec fn spec_ray_hit(
    b: Board,
    sq: u8,
    df: int,
    dr: int,
    k1: PieceKind,
    k2: PieceKind,
    by: Color,
    fuel: nat,
) -> bool
    recommends
        sq < 64,
    decreases fuel,
{
    if fuel == 0 {
        false
    } else {
        match spec_offset(sq, df, dr) {
            None => false,
            Some(s) => match b.spec_piece_at(s) {
                Some(p) => p.color == by && (p.kind == k1 || p.kind == k2),
                None => spec_ray_hit(b, s, df, dr, k1, k2, by, (fuel - 1) as nat),
            },
        }
    }
}

fn ray_hit(b: &Board, sq: u8, df: i8, dr: i8, k1: PieceKind, k2: PieceKind, by: Color, fuel: u8) -> (r:
    bool)
    requires
        sq < 64,
        -8 <= df < 8,
        -8 <= dr < 8,
    ensures
        r == spec_ray_hit(*b, sq, df as int, dr as int, k1, k2, by, fuel as nat),
    decreases fuel,
{
    if fuel == 0 {
        return false;
    }
    match offset(sq, df, dr) {
        None => false,
        Some(s) => match b.piece(s) {
            Some(p) => p.color == by && (p.kind == k1 || p.kind == k2),
            None => ray_hit(b, s, df, dr, k1, k2, by, fuel - 1),
        },
    }
}

/// A pawn of `by` attacks `sq` diagonally.
pub open spec fn spec_pawn_attacks(b: Board, sq: u8, by: Color) -> bool
    recommends
        sq < 64,
{
    let dr: int = if by == Color::White {
        -1
    } else {
        1
    };
    spec_leaper_hit(b, sq, by, PieceKind::Pawn, -1, dr) || spec_leaper_hit(
        b,
        sq,
        by,
        PieceKind::Pawn,
        1,
        dr,
    )
}

/// A knight of `by` is a knight's jump away from `sq`.
pub open spec fn spec_knight_attacks(b: Board, sq: u8, by: Color) -> bool
    recommends
        sq < 64,
{
    ||| spec_leaper_hit(b, sq, by, PieceKind::Knight, -2, -1)
    ||| spec_leaper_hit(b, sq, by, PieceKind::Knight, -2, 1)
    ||| spec_leaper_hit(b, sq, by, PieceKind::Knight, -1, -2)
    ||| spec_leaper_hit(b, sq, by, PieceKind::Knight, -1, 2)
    ||| spec_leaper_hit(b, sq, by, PieceKind::Knight, 1, -2)
    ||| spec_leaper_hit(b, sq, by, PieceKind::Knight, 1, 2)
    ||| spec_leaper_hit(b, sq, by, PieceKind::Knight, 2, -1)
    ||| spec_leaper_hit(b, sq, by, PieceKind::Knight, 2, 1)
}

/// The king of `by` stands next to `sq`.
pub open spec fn spec_king_attacks(b: Board, sq: u8, by: Color) -> bool
    recommends
        sq < 64,
{
    ||| spec_leaper_hit(b, sq, by, PieceKind::King, -1, -1)
    ||| spec_leaper_hit(b, sq, by, PieceKind::King, -1, 0)
    ||| spec_leaper_hit(b, sq, by, PieceKind::King, -1, 1)
    ||| spec_leaper_hit(b, sq, by, PieceKind::King, 0, -1)
    ||| spec_leaper_hit(b, sq, by, PieceKind::King, 0, 1)
    ||| spec_leaper_hit(b, sq, by, PieceKind::King, 1, -1)
    ||| spec_leaper_hit(b, sq, by, PieceKind::King, 1, 0)
    ||| spec_leaper_hit(b, sq, by, PieceKind::King, 1, 1)
}

/// A bishop or queen of `by` sees `sq` along an empty diagonal.
pub open spec fn spec_diag_attacks(b: Board, sq: u8, by: Color) -> bool
    recommends
        sq < 64,
{
    ||| spec_ray_hit(b, sq, -1, -1, PieceKind::Bishop, PieceKind::Queen, by, 8)
    ||| spec_ray_hit(b, sq, -1, 1, PieceKind::Bishop, PieceKind::Queen, by, 8)
    ||| spec_ray_hit(b, sq, 1, -1, PieceKind::Bishop, PieceKind::Queen, by, 8)
    ||| spec_ray_hit(b, sq, 1, 1, PieceKind::Bishop, PieceKind::Queen, by, 8)
}

/// A rook or queen of `by` sees `sq` along an empty file or rank.
pub open spec fn spec_ortho_attacks(b: Board, sq: u8, by: Color) -> bool
    recommends
        sq < 64,
{
    ||| spec_ray_hit(b, sq, -1, 0, PieceKind::Rook, PieceKind::Queen, by, 8)
    ||| spec_ray_hit(b, sq, 1, 0, PieceKind::Rook, PieceKind::Queen, by, 8)
    ||| spec_ray_hit(b, sq, 0, -1, PieceKind::Rook, PieceKind::Queen, by, 8)
    ||| spec_ray_hit(b, sq, 0, 1, PieceKind::Rook, PieceKind::Queen, by, 8)
}

/// Some piece of `by` pseudo-attacks `sq`.
pub open spec fn spec_square_attacked(b: Board, sq: u8, by: Color) -> bool
    recommends
        sq < 64,
{
    ||| spec_pawn_attacks(b, sq, by)
    ||| spec_knight_attacks(b, sq, by)
    ||| spec_king_attacks(b, sq, by)
    ||| spec_diag_attacks(b, sq, by)
    ||| spec_ortho_attacks(b, sq, by)
}

pub fn square_attacked(b: &Board, sq: u8, by: Color) -> (r: bool)
    requires
        sq < 64,
    ensures
        r == spec_square_attacked(*b, sq, by),
{
    let pawn_dr: i8 = if by == Color::White {
        -1
    } else {
        1
    };
    if leaper_hit(b, sq, by, PieceKind::Pawn, -1, pawn_dr) {
        return true;
    }
    if leaper_hit(b, sq, by, PieceKind::Pawn, 1, pawn_dr) {
        return true;
    }
    if leaper_hit(b, sq, by, PieceKind::Knight, -2, -1) || leaper_hit(b, sq, by, PieceKind::Knight, -2, 1)
        || leaper_hit(b, sq, by, PieceKind::Knight, -1, -2) || leaper_hit(b, sq, by, PieceKind::Knight, -1, 2)
        || leaper_hit(b, sq, by, PieceKind::Knight, 1, -2) || leaper_hit(b, sq, by, PieceKind::Knight, 1, 2)
        || leaper_hit(b, sq, by, PieceKind::Knight, 2, -1) || leaper_hit(b, sq, by, PieceKind::Knight, 2, 1) {
        return true;
    }
    if leaper_hit(b, sq, by, PieceKind::King, -1, -1) || leaper_hit(b, sq, by, PieceKind::King, -1, 0)
        || leaper_hit(b, sq, by, PieceKind::King, -1, 1) || leaper_hit(b, sq, by, PieceKind::King, 0, -1)
        || leaper_hit(b, sq, by, PieceKind::King, 0, 1) || leaper_hit(b, sq, by, PieceKind::King, 1, -1)
        || leaper_hit(b, sq, by, PieceKind::King, 1, 0) || leaper_hit(b, sq, by, PieceKind::King, 1, 1) {
        return true;
    }
    if ray_hit(b, sq, -1, -1, PieceKind::Bishop, PieceKind::Queen, by, 8) || ray_hit(
        b,
        sq,
        -1,
        1,
        PieceKind::Bishop,
        PieceKind::Queen,
        by,
        8,
    ) || ray_hit(b, sq, 1, -1, PieceKind::Bishop, PieceKind::Queen, by, 8) || ray_hit(
        b,
        sq,
        1,
        1,
        PieceKind::Bishop,
        PieceKind::Queen,
        by,
        8,
    ) {
        return true;
    }
    ray_hit(b, sq, -1, 0, PieceKind::Rook, PieceKind::Queen, by, 8) || ray_hit(
        b,
        sq,
        1,
        0,
        PieceKind::Rook,
        PieceKind::Queen,
        by,
        8,
    ) || ray_hit(b, sq, 0, -1, PieceKind::Rook, PieceKind::Queen, by, 8) || ray_hit(
        b,
        sq,
        0,
        1,
        PieceKind::Rook,
        PieceKind::Queen,
        by,
        8,
    )
}

/// Check state of a board: the given side's king square is attacked by
/// the other side; false when that king is absent.
pub open spec fn spec_in_check(b: Board, c: Color) -> bool {
    let ks = b.spec_king_square(c);
    ks < 64 && spec_square_attacked(b, ks, c.spec_opposite())
}

pub fn in_check_for(b: &Board, c: Color) -> (r: bool)
    ensures
        r == spec_in_check(*b, c),
{
    let ks = b.king_square(c);
    if ks < 64 {
        square_attacked(b, ks, c.opposite())
    } else {
        false
    }
}

/// Two boards with the same piece placement agree on every attack
/// question, whatever their scalar fields hold.
pub open spec fn same_pieces(a: Board, b: Board) -> bool {
    forall|p: Piece| a.spec_bb(p) == b.spec_bb(p)
}

proof fn lemma_piece_at_same(a: Board, b: Board, sq: u8)
    requires
        same_pieces(a, b),
    ensures
        a.spec_piece_at(sq) == b.spec_piece_at(sq),
{
    assert(a.spec_bb(Piece { kind: PieceKind::Pawn, color: Color::White }) == b.spec_bb(
        Piece { kind: PieceKind::Pawn, color: Color::White },
    ));
    assert(a.spec_bb(Piece { kind: PieceKind::Knight, color: Color::White }) == b.spec_bb(
        Piece { kind: PieceKind::Knight, color: Color::White },
    ));
    assert(a.spec_bb(Piece { kind: PieceKind::Bishop, color: Color::White }) == b.spec_bb(
        Piece { kind: PieceKind::Bishop, color: Color::White },
    ));
    assert(a.spec_bb(Piece { kind: PieceKind::Rook, color: Color::White }) == b.spec_bb(
        Piece { kind: PieceKind::Rook, color: Color::White },
    ));
    assert(a.spec_bb(Piece { kind: PieceKind::Queen, color: Color::White }) == b.spec_bb(
        Piece { kind: PieceKind::Queen, color: Color::White },
    ));
    assert(a.spec_bb(Piece { kind: PieceKind::King, color: Color::White }) == b.spec_bb(
        Piece { kind: PieceKind::King, color: Color::White },
    ));
    assert(a.spec_bb(Piece { kind: PieceKind::Pawn, color: Color::Black }) == b.spec_bb(
        Piece { kind: PieceKind::Pawn, color: Color::Black },
    ));
    assert(a.spec_bb(Piece { kind: PieceKind::Knight, color: Color::Black }) == b.spec_bb(
        Piece { kind: PieceKind::Knight, color: Color::Black },
    ));
    assert(a.spec_bb(Piece { kind: PieceKind::Bishop, color: Color::Black }) == b.spec_bb(
        Piece { kind: PieceKind::Bishop, color: Color::Black },
    ));
    assert(a.spec_bb(Piece { kind: PieceKind::Rook, color: Color::Black }) == b.spec_bb(
        Piece { kind: PieceKind::Rook, color: Color::Black },
    ));
    assert(a.spec_bb(Piece { kind: PieceKind::Queen, color: Color::Black }) == b.spec_bb(
        Piece { kind: PieceKind::Queen, color: Color::Black },
    ));
    assert(a.spec_bb(Piece { kind: PieceKind::King, color: Color::Black }) == b.spec_bb(
        Piece { kind: PieceKind::King, color: Color::Black },
    ));
}

proof fn lemma_ray_hit_same(
    a: Board,
    b: Board,
    sq: u8,
    df: int,
    dr: int,
    k1: PieceKind,
    k2: PieceKind,
    by: Color,
    fuel: nat,
)
    requires
        same_pieces(a, b),
        sq < 64,
    ensures
        spec_ray_hit(a, sq, df, dr, k1, k2, by, fuel) == spec_ray_hit(b, sq, df, dr, k1, k2, by, fuel),
    decreases fuel,
{
    if fuel > 0 {
        match spec_offset(sq, df, dr) {
            None => {},
            Some(t) => {
                lemma_piece_at_same(a, b, t);
                if t < 64 {
                    lemma_ray_hit_same(a, b, t, df, dr, k1, k2, by, (fuel - 1) as nat);
                }
            },
        }
    }
}

/// Attack detection reads only the piece boards.
pub proof fn lemma_square_attacked_same(a: Board, b: Board, sq: u8, by: Color)
    requires
        same_pieces(a, b),
        sq < 64,
    ensures
        spec_square_attacked(a, sq, by) == spec_square_attacked(b, sq, by),
{
    assert forall|s: u8| s < 64 implies a.spec_piece_at(s) == b.spec_piece_at(s) by {
        lemma_piece_at_same(a, b, s);
    }
    lemma_ray_hit_same(a, b, sq, -1, -1, PieceKind::Bishop, PieceKind::Queen, by, 8);
    lemma_ray_hit_same(a, b, sq, -1, 1, PieceKind::Bishop, PieceKind::Queen, by, 8);
    lemma_ray_hit_same(a, b, sq, 1, -1, PieceKind::Bishop, PieceKind::Queen, by, 8);
    lemma_ray_hit_same(a, b, sq, 1, 1, PieceKind::Bishop, PieceKind::Queen, by, 8);
    lemma_ray_hit_same(a, b, sq, -1, 0, PieceKind::Rook, PieceKind::Queen, by, 8);
    lemma_ray_hit_same(a, b, sq, 1, 0, PieceKind::Rook, PieceKind::Queen, by, 8);
    lemma_ray_hit_same(a, b, sq, 0, -1, PieceKind::Rook, PieceKind::Queen, by, 8);
    lemma_ray_hit_same(a, b, sq, 0, 1, PieceKind::Rook, PieceKind::Queen, by, 8);
}

/// The check state reads only the piece boards.
pub proof fn lemma_in_check_same(a: Board, b: Board, c: Color)
    requires
        same_pieces(a, b),
    ensures
        spec_in_check(a, c) == spec_in_check(b, c),
{
    assert(a.spec_bb(Piece { kind: PieceKind::King, color: c }) == b.spec_bb(
        Piece { kind: PieceKind::King, color: c },
    ));
    let ks = a.spec_king_square(c);
    assert(b.spec_king_square(c) == ks);
    if ks < 64 {
        lemma_square_attacked_same(a, b, ks, c.spec_opposite());
    }
}

} // verus!
