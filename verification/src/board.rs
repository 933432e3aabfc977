//! The position: twelve piece bitboards, side to move, castling
//! rights, en-passant target, and the cached check flag.

use vstd::prelude::*;
use crate::bits::{bit, clear_bit, set_bit, single_bit, sq_mask};
use crate::bits;
use crate::piece::{Color, Piece, PieceKind};
use crate::moves::{Move, SpecialMove};
use crate::attacks;

verus! {

/// Castling-rights bits inside `can_castle`.
pub const WHITE_KINGSIDE: u8 = 1;

pub const WHITE_QUEENSIDE: u8 = 2;

pub const BLACK_KINGSIDE: u8 = 4;

pub const BLACK_QUEENSIDE: u8 = 8;

#[derive(Clone, Copy, Debug)]
pub struct Board {
    pub w_pawn: u64,
    pub w_knight: u64,
    pub w_bishop: u64,
    pub w_rook: u64,
    pub w_queen: u64,
    pub w_king: u64,
    pub b_pawn: u64,
    pub b_knight: u64,
    pub b_bishop: u64,
    pub b_rook: u64,
    pub b_queen: u64,
    pub b_king: u64,
    pub side_to_move: Color,
    pub can_castle: u8,
    pub en_passant: Option<u8>,
    pub in_check: bool,
}

impl PartialEq for Board {
    fn eq(&self, other: &Board) -> (r: bool) {
        let ep_eq = match (self.en_passant, other.en_passant) {
            (None, None) => true,
            (Some(a), Some(b)) => a == b,
            _ => false,
        };
        self.w_pawn == other.w_pawn && self.w_knight == other.w_knight && self.w_bishop
            == other.w_bishop && self.w_rook == other.w_rook && self.w_queen == other.w_queen
            && self.w_king == other.w_king && self.b_pawn == other.b_pawn && self.b_knight
            == other.b_knight && self.b_bishop == other.b_bishop && self.b_rook == other.b_rook
            && self.b_queen == other.b_queen && self.b_king == other.b_king && self.side_to_move
            == other.side_to_move && self.can_castle == other.can_castle && ep_eq && self.in_check
            == other.in_check
    }
}

impl vstd::std_specs::cmp::PartialEqSpecImpl for Board {
    open spec fn obeys_eq_spec() -> bool {
        true
    }

    open spec fn eq_spec(&self, other: &Board) -> bool {
        *self == *other
    }
}

impl Eq for Board {

}

impl Board {
    /// The bitboard holding the given piece.
    pub open spec fn spec_bb(self, p: Piece) -> u64 {
        match (p.color, p.kind) {
            (Color::White, PieceKind::Pawn) => self.w_pawn,
            (Color::White, PieceKind::Knight) => self.w_knight,
            (Color::White, PieceKind::Bishop) => self.w_bishop,
            (Color::White, PieceKind::Rook) => self.w_rook,
            (Color::White, PieceKind::Queen) => self.w_queen,
            (Color::White, PieceKind::King) => self.w_king,
            (Color::Black, PieceKind::Pawn) => self.b_pawn,
            (Color::Black, PieceKind::Knight) => self.b_knight,
            (Color::Black, PieceKind::Bishop) => self.b_bishop,
            (Color::Black, PieceKind::Rook) => self.b_rook,
            (Color::Black, PieceKind::Queen) => self.b_queen,
            (Color::Black, PieceKind::King) => self.b_king,
        }
    }

    /// The bitboard holding the given piece.
    pub fn board(&self, p: Piece) -> (r: u64)
        ensures
            r == self.spec_bb(p),
    {
        match (p.color, p.kind) {
            (Color::White, PieceKind::Pawn) => self.w_pawn,
            (Color::White, PieceKind::Knight) => self.w_knight,
            (Color::White, PieceKind::Bishop) => self.w_bishop,
            (Color::White, PieceKind::Rook) => self.w_rook,
            (Color::White, PieceKind::Queen) => self.w_queen,
            (Color::White, PieceKind::King) => self.w_king,
            (Color::Black, PieceKind::Pawn) => self.b_pawn,
            (Color::Black, PieceKind::Knight) => self.b_knight,
            (Color::Black, PieceKind::Bishop) => self.b_bishop,
            (Color::Black, PieceKind::Rook) => self.b_rook,
            (Color::Black, PieceKind::Queen) => self.b_queen,
            (Color::Black, PieceKind::King) => self.b_king,
        }
    }

    /// The same board with the given piece's bitboard replaced.
    pub open spec fn spec_with_bb(self, p: Piece, v: u64) -> Board {
        match (p.color, p.kind) {
            (Color::White, PieceKind::Pawn) => Board { w_pawn: v, ..self },
            (Color::White, PieceKind::Knight) => Board { w_knight: v, ..self },
            (Color::White, PieceKind::Bishop) => Board { w_bishop: v, ..self },
            (Color::White, PieceKind::Rook) => Board { w_rook: v, ..self },
            (Color::White, PieceKind::Queen) => Board { w_queen: v, ..self },
            (Color::White, PieceKind::King) => Board { w_king: v, ..self },
            (Color::Black, PieceKind::Pawn) => Board { b_pawn: v, ..self },
            (Color::Black, PieceKind::Knight) => Board { b_knight: v, ..self },
            (Color::Black, PieceKind::Bishop) => Board { b_bishop: v, ..self },
            (Color::Black, PieceKind::Rook) => Board { b_rook: v, ..self },
            (Color::Black, PieceKind::Queen) => Board { b_queen: v, ..self },
            (Color::Black, PieceKind::King) => Board { b_king: v, ..self },
        }
    }

    pub fn set_board(&mut self, p: Piece, v: u64)
        ensures
            *final(self) == old(self).spec_with_bb(p, v),
    {
        match (p.color, p.kind) {
            (Color::White, PieceKind::Pawn) => self.w_pawn = v,
            (Color::White, PieceKind::Knight) => self.w_knight = v,
            (Color::White, PieceKind::Bishop) => self.w_bishop = v,
            (Color::White, PieceKind::Rook) => self.w_rook = v,
            (Color::White, PieceKind::Queen) => self.w_queen = v,
            (Color::White, PieceKind::King) => self.w_king = v,
            (Color::Black, PieceKind::Pawn) => self.b_pawn = v,
            (Color::Black, PieceKind::Knight) => self.b_knight = v,
            (Color::Black, PieceKind::Bishop) => self.b_bishop = v,
            (Color::Black, PieceKind::Rook) => self.b_rook = v,
            (Color::Black, PieceKind::Queen) => self.b_queen = v,
            (Color::Black, PieceKind::King) => self.b_king = v,
        }
    }

    /// All squares occupied by the given color.
    pub open spec fn spec_occ_color(self, c: Color) -> u64 {
        match c {
            Color::White => self.w_pawn | self.w_knight | self.w_bishop | self.w_rook
                | self.w_queen | self.w_king,
            Color::Black => self.b_pawn | self.b_knight | self.b_bishop | self.b_rook
                | self.b_queen | self.b_king,
        }
    }

    pub fn occ_color(&self, c: Color) -> (r: u64)
        ensures
            r == self.spec_occ_color(c),
    {
        match c {
            Color::White => self.w_pawn | self.w_knight | self.w_bishop | self.w_rook
                | self.w_queen | self.w_king,
            Color::Black => self.b_pawn | self.b_knight | self.b_bishop | self.b_rook
                | self.b_queen | self.b_king,
        }
    }

    /// All occupied squares.
    pub open spec fn spec_occ(self) -> u64 {
        self.spec_occ_color(Color::White) | self.spec_occ_color(Color::Black)
    }

    pub fn occ(&self) -> (r: u64)
        ensures
            r == self.spec_occ(),
    {
        self.occ_color(Color::White) | self.occ_color(Color::Black)
    }

    /// The piece on a square, scanning white boards then black, pawn
    /// through king.
    pub open spec fn spec_piece_at(self, sq: u8) -> Option<Piece>
        recommends
            sq < 64,
    {
        if bit(self.w_pawn, sq as u64) {
            Some(Piece { kind: PieceKind::Pawn, color: Color::White })
        } else if bit(self.w_knight, sq as u64) {
            Some(Piece { kind: PieceKind::Knight, color: Color::White })
        } else if bit(self.w_bishop, sq as u64) {
            Some(Piece { kind: PieceKind::Bishop, color: Color::White })
        } else if bit(self.w_rook, sq as u64) {
            Some(Piece { kind: PieceKind::Rook, color: Color::White })
        } else if bit(self.w_queen, sq as u64) {
            Some(Piece { kind: PieceKind::Queen, color: Color::White })
        } else if bit(self.w_king, sq as u64) {
            Some(Piece { kind: PieceKind::King, color: Color::White })
        } else if bit(self.b_pawn, sq as u64) {
            Some(Piece { kind: PieceKind::Pawn, color: Color::Black })
        } else if bit(self.b_knight, sq as u64) {
            Some(Piece { kind: PieceKind::Knight, color: Color::Black })
        } else if bit(self.b_bishop, sq as u64) {
            Some(Piece { kind: PieceKind::Bishop, color: Color::Black })
        } else if bit(self.b_rook, sq as u64) {
            Some(Piece { kind: PieceKind::Rook, color: Color::Black })
        } else if bit(self.b_queen, sq as u64) {
            Some(Piece { kind: PieceKind::Queen, color: Color::Black })
        } else if bit(self.b_king, sq as u64) {
            Some(Piece { kind: PieceKind::King, color: Color::Black })
        } else {
            None
        }
    }

    pub fn piece(&self, sq: u8) -> (r: Option<Piece>)
        requires
            sq < 64,
        ensures
            r == self.spec_piece_at(sq),
    {
        if bits::test_bit(self.w_pawn, sq as u64) {
            Some(Piece { kind: PieceKind::Pawn, color: Color::White })
        } else if bits::test_bit(self.w_knight, sq as u64) {
            Some(Piece { kind: PieceKind::Knight, color: Color::White })
        } else if bits::test_bit(self.w_bishop, sq as u64) {
            Some(Piece { kind: PieceKind::Bishop, color: Color::White })
        } else if bits::test_bit(self.w_rook, sq as u64) {
            Some(Piece { kind: PieceKind::Rook, color: Color::White })
        } else if bits::test_bit(self.w_queen, sq as u64) {
            Some(Piece { kind: PieceKind::Queen, color: Color::White })
        } else if bits::test_bit(self.w_king, sq as u64) {
            Some(Piece { kind: PieceKind::King, color: Color::White })
        } else if bits::test_bit(self.b_pawn, sq as u64) {
            Some(Piece { kind: PieceKind::Pawn, color: Color::Black })
        } else if bits::test_bit(self.b_knight, sq as u64) {
            Some(Piece { kind: PieceKind::Knight, color: Color::Black })
        } else if bits::test_bit(self.b_bishop, sq as u64) {
            Some(Piece { kind: PieceKind::Bishop, color: Color::Black })
        } else if bits::test_bit(self.b_rook, sq as u64) {
            Some(Piece { kind: PieceKind::Rook, color: Color::Black })
        } else if bits::test_bit(self.b_queen, sq as u64) {
            Some(Piece { kind: PieceKind::Queen, color: Color::Black })
        } else if bits::test_bit(self.b_king, sq as u64) {
            Some(Piece { kind: PieceKind::King, color: Color::Black })
        } else {
            None
        }
    }

    /// The smallest set bit of the given color's king board, or 64 when
    /// that board is empty.
    pub open spec fn spec_king_square(self, c: Color) -> u8 {
        spec_first_bit(self.spec_bb(Piece { kind: PieceKind::King, color: c }), 0)
    }

    pub fn king_square(&self, c: Color) -> (r: u8)
        ensures
            r == self.spec_king_square(c),
            r <= 64,
            r < 64 ==> bit(self.spec_bb(Piece { kind: PieceKind::King, color: c }), r as u64),
            r == 64 ==> self.spec_bb(Piece { kind: PieceKind::King, color: c }) == 0,
    {
        let bb = self.board(Piece { kind: PieceKind::King, color: c });
        let r = first_bit(bb);
        proof {
            if r == 64 {
                if bb != 0 {
                    bits::lemma_nonzero_has_bit(bb);
                    let j = choose|j: u64| j < 64 && bit(bb, j);
                    lemma_first_bit_finds(bb, 0, j as u8);
                }
            }
        }
        r
    }
}

/// The smallest set bit at or above `from`, or 64 when none is.
pub open spec fn spec_first_bit(bb: u64, from: u8) -> u8
    recommends
        from <= 64,
    decreases 64 - from,
{
    if from >= 64 {
        64u8
    } else if bit(bb, from as u64) {
        from
    } else {
        spec_first_bit(bb, (from + 1) as u8)
    }
}

pub fn first_bit(bb: u64) -> (r: u8)
    ensures
        r == spec_first_bit(bb, 0),
        r <= 64,
        r < 64 ==> bit(bb, r as u64),
{
    let mut i: u8 = 0;
    while i < 64
        invariant
            i <= 64,
            spec_first_bit(bb, 0) == spec_first_bit(bb, i),
        decreases 64 - i,
    {
        if bits::test_bit(bb, i as u64) {
            return i;
        }
        i = i + 1;
    }
    64
}

/// If some bit at or above `from` is set, the scan stops below 64.
pub proof fn lemma_first_bit_finds(bb: u64, from: u8, j: u8)
    requires
        from <= j < 64,
        bit(bb, j as u64),
    ensures
        spec_first_bit(bb, from) <= j,
    decreases 64 - from,
{
    if from < j && !bit(bb, from as u64) {
        lemma_first_bit_finds(bb, (from + 1) as u8, j);
    }
}

/// Pairwise disjointness of the twelve piece boards.
pub open spec fn boards_disjoint(b: Board) -> bool {
    forall|p1: Piece, p2: Piece|
        p1 != p2 ==> #[trigger] b.spec_bb(p1) & #[trigger] b.spec_bb(p2) == 0
}

/// One king of each color.
pub open spec fn one_king_each(b: Board) -> bool {
    single_bit(b.w_king) && single_bit(b.b_king)
}

/// The structural invariant of a position: disjoint boards, one king
/// per side, and castling rights within their four bits.
pub open spec fn wf_board(b: Board) -> bool {
    boards_disjoint(b) && one_king_each(b) && b.can_castle < 16 && (b.en_passant matches Some(t)
        ==> t < 64 && (crate::square::spec_rank(t) == 2 || crate::square::spec_rank(t) == 5))
}


/// Which piece a capture removes, and from which square: the square
/// behind the target for en passant, the target itself otherwise.
pub open spec fn spec_capture_square(m: Move) -> u8 {
    if m.special == Some(SpecialMove::EnPassant) {
        if m.piece.color == Color::White {
            (m.to - 8) as u8
        } else {
            (m.to + 8) as u8
        }
    } else {
        m.to
    }
}

/// Castling rights surviving a move that touches `sq`.
pub open spec fn spec_castle_mask(sq: u8) -> u8 {
    if sq == 0 {
        0b1101
    } else if sq == 4 {
        0b1100
    } else if sq == 7 {
        0b1110
    } else if sq == 56 {
        0b0111
    } else if sq == 60 {
        0b0011
    } else if sq == 63 {
        0b1011
    } else {
        0b1111
    }
}

#[verifier::when_used_as_spec(spec_castle_mask)]
pub fn castle_mask(sq: u8) -> (r: u8)
    ensures
        r == spec_castle_mask(sq),
{
    if sq == 0 {
        0b1101
    } else if sq == 4 {
        0b1100
    } else if sq == 7 {
        0b1110
    } else if sq == 56 {
        0b0111
    } else if sq == 60 {
        0b0011
    } else if sq == 63 {
        0b1011
    } else {
        0b1111
    }
}

/// The rook's journey in a castle: (corner, target) for each of the
/// four castle destinations.
pub open spec fn spec_castle_rook_squares(to: u8) -> (u8, u8) {
    if to == 6 {
        (7u8, 5u8)
    } else if to == 2 {
        (0u8, 3u8)
    } else if to == 62 {
        (63u8, 61u8)
    } else {
        (56u8, 59u8)
    }
}

/// The conditions a move must meet for `make_move` to be meaningful:
/// the stated piece of the side to move stands on `from`, the target
/// square's content matches the capture flag, and each special marker
/// is consistent with the squares it involves.
pub open spec fn move_ok(b: Board, m: Move) -> bool {
    &&& m.from < 64
    &&& m.to < 64
    &&& m.from != m.to
    &&& m.piece.color == b.side_to_move
    &&& bit(b.spec_bb(m.piece), m.from as u64)
    &&& (match m.special {
        Some(SpecialMove::EnPassant) => {
            &&& m.capture
            &&& m.piece.kind == PieceKind::Pawn
            &&& b.en_passant == Some(m.to)
            &&& (if m.piece.color == Color::White {
                m.to >= 8
            } else {
                m.to < 56
            })
            &&& bit(
                b.spec_bb(
                    Piece { kind: PieceKind::Pawn, color: m.piece.color.spec_opposite() },
                ),
                spec_capture_square(m) as u64,
            )
        },
        Some(SpecialMove::DoublePush) => {
            &&& !m.capture
            &&& m.piece.kind == PieceKind::Pawn
            &&& (if m.piece.color == Color::White {
                8 <= m.from < 16 && m.to == m.from + 16
            } else {
                48 <= m.from < 56 && m.to == m.from - 16
            })
        },
        Some(SpecialMove::Castle) => {
            &&& !m.capture
            &&& m.piece.kind == PieceKind::King
            &&& (if m.piece.color == Color::White {
                m.from == 4 && (m.to == 6 || m.to == 2)
            } else {
                m.from == 60 && (m.to == 62 || m.to == 58)
            })
            &&& bit(
                b.spec_bb(Piece { kind: PieceKind::Rook, color: m.piece.color }),
                spec_castle_rook_squares(m.to).0 as u64,
            )
            &&& b.spec_piece_at(spec_castle_rook_squares(m.to).1).is_none()
        },
        Some(SpecialMove::Promotion(k)) => {
            &&& m.piece.kind == PieceKind::Pawn
            &&& (k == PieceKind::Knight || k == PieceKind::Bishop || k == PieceKind::Rook || k
                == PieceKind::Queen)
            &&& (if m.piece.color == Color::White {
                m.to >= 56
            } else {
                m.to < 8
            })
        },
        None => true,
    })
    &&& (if m.capture && m.special != Some(SpecialMove::EnPassant) {
        match b.spec_piece_at(m.to) {
            Some(p) => p.color == m.piece.color.spec_opposite(),
            None => false,
        }
    } else {
        b.spec_piece_at(m.to).is_none()
    })
}

/// The move removes the opposing king; excluded from well-formed play.
pub open spec fn spec_captures_king(b: Board, m: Move) -> bool {
    m.capture && m.special != Some(SpecialMove::EnPassant) && (match b.spec_piece_at(m.to) {
        Some(p) => p.kind == PieceKind::King,
        None => false,
    })
}

/// Step one of a move: remove the captured piece, if any.
pub open spec fn sm_capture(b: Board, m: Move) -> Board {
    if m.capture {
        if m.special == Some(SpecialMove::EnPassant) {
            let p = Piece { kind: PieceKind::Pawn, color: m.piece.color.spec_opposite() };
            b.spec_with_bb(p, clear_bit(b.spec_bb(p), spec_capture_square(m) as u64))
        } else {
            match b.spec_piece_at(m.to) {
                Some(p) => b.spec_with_bb(p, clear_bit(b.spec_bb(p), m.to as u64)),
                None => b,
            }
        }
    } else {
        b
    }
}

/// Step two: the moving piece leaves `from` and lands on `to`.
pub open spec fn sm_move_piece(b: Board, m: Move) -> Board {
    b.spec_with_bb(m.piece, set_bit(clear_bit(b.spec_bb(m.piece), m.from as u64), m.to as u64))
}

/// Step three: a promotion trades the arrived pawn for the chosen kind.
pub open spec fn sm_promote(b: Board, m: Move) -> Board {
    match m.special {
        Some(SpecialMove::Promotion(k)) => {
            let pawn = Piece { kind: PieceKind::Pawn, color: m.piece.color };
            let promo = Piece { kind: k, color: m.piece.color };
            let b1 = b.spec_with_bb(pawn, clear_bit(b.spec_bb(pawn), m.to as u64));
            b1.spec_with_bb(promo, set_bit(b1.spec_bb(promo), m.to as u64))
        },
        _ => b,
    }
}

/// Step four: a castle carries the rook across the king.
pub open spec fn sm_castle_rook(b: Board, m: Move) -> Board {
    if m.special == Some(SpecialMove::Castle) {
        let rook = Piece { kind: PieceKind::Rook, color: m.piece.color };
        let (corner, target) = spec_castle_rook_squares(m.to);
        b.spec_with_bb(
            rook,
            set_bit(clear_bit(b.spec_bb(rook), corner as u64), target as u64),
        )
    } else {
        b
    }
}

/// The en-passant target a move leaves behind: the square the pawn
/// skipped on a double push, nothing otherwise.
pub open spec fn spec_new_en_passant(m: Move) -> Option<u8> {
    if m.special == Some(SpecialMove::DoublePush) {
        if m.piece.color == Color::White {
            Some((m.from + 8) as u8)
        } else {
            Some((m.from - 8) as u8)
        }
    } else {
        None
    }
}

/// The position after a move: capture removal, piece movement,
/// promotion, castle rook transfer, rights and en-passant update, turn
/// flip, and the check flag recomputed for the new side to move.
pub open spec fn spec_make_move(b: Board, m: Move) -> Board {
    let b4 = sm_castle_rook(sm_promote(sm_move_piece(sm_capture(b, m), m), m), m);
    let them = m.piece.color.spec_opposite();
    let b5 = Board {
        can_castle: b4.can_castle & spec_castle_mask(m.from) & spec_castle_mask(m.to),
        en_passant: spec_new_en_passant(m),
        side_to_move: them,
        ..b4
    };
    Board { in_check: attacks::spec_in_check(b5, them), ..b5 }
}

impl Board {
    /// Apply a move, per the step functions above.
    pub fn make_move(&mut self, m: &Move)
        requires
            move_ok(*old(self), *m),
        ensures
            *final(self) == spec_make_move(*old(self), *m),
    {
        let us = m.piece.color;
        let them = us.opposite();
        if m.capture {
            let is_ep = match m.special {
                Some(SpecialMove::EnPassant) => true,
                _ => false,
            };
            if is_ep {
                let cs: u8 = if us == Color::White {
                    m.to - 8
                } else {
                    m.to + 8
                };
                let p = Piece { kind: PieceKind::Pawn, color: them };
                let v = self.board(p);
                self.set_board(p, bits::without_bit(v, cs as u64));
            } else {
                match self.piece(m.to) {
                    Some(p) => {
                        let v = self.board(p);
                        self.set_board(p, bits::without_bit(v, m.to as u64));
                    },
                    None => {},
                }
            }
        }
        assert(*self == sm_capture(*old(self), *m));
        let v = self.board(m.piece);
        self.set_board(
            m.piece,
            bits::with_bit(bits::without_bit(v, m.from as u64), m.to as u64),
        );
        assert(*self == sm_move_piece(sm_capture(*old(self), *m), *m));
        match m.special {
            Some(SpecialMove::Promotion(k)) => {
                let pawn = Piece { kind: PieceKind::Pawn, color: us };
                let promo = Piece { kind: k, color: us };
                let vp = self.board(pawn);
                self.set_board(pawn, bits::without_bit(vp, m.to as u64));
                let vq = self.board(promo);
                self.set_board(promo, bits::with_bit(vq, m.to as u64));
            },
            _ => {},
        }
        match m.special {
            Some(SpecialMove::Castle) => {
                let (corner, target): (u8, u8) = if m.to == 6 {
                    (7, 5)
                } else if m.to == 2 {
                    (0, 3)
                } else if m.to == 62 {
                    (63, 61)
                } else {
                    (56, 59)
                };
                let rook = Piece { kind: PieceKind::Rook, color: us };
                let vr = self.board(rook);
                self.set_board(
                    rook,
                    bits::with_bit(bits::without_bit(vr, corner as u64), target as u64),
                );
            },
            _ => {},
        }
        self.can_castle = self.can_castle & castle_mask(m.from) & castle_mask(m.to);
        self.en_passant = match m.special {
            Some(SpecialMove::DoublePush) => {
                if us == Color::White {
                    Some(m.from + 8)
                } else {
                    Some(m.from - 8)
                }
            },
            _ => None,
        };
        self.side_to_move = them;
        let snapshot = *self;
        self.in_check = attacks::in_check_for(&snapshot, them);
    }

    /// The canonical starting position.
    pub fn start_pos() -> (r: Board)
        ensures
            r == spec_start_pos(),
    {
        Board {
            w_pawn: 0x0000_0000_0000_ff00,
            w_knight: 0x0000_0000_0000_0042,
            w_bishop: 0x0000_0000_0000_0024,
            w_rook: 0x0000_0000_0000_0081,
            w_queen: 0x0000_0000_0000_0008,
            w_king: 0x0000_0000_0000_0010,
            b_pawn: 0x00ff_0000_0000_0000,
            b_knight: 0x4200_0000_0000_0000,
            b_bishop: 0x2400_0000_0000_0000,
            b_rook: 0x8100_0000_0000_0000,
            b_queen: 0x0800_0000_0000_0000,
            b_king: 0x1000_0000_0000_0000,
            side_to_move: Color::White,
            can_castle: 0b1111,
            en_passant: None,
            in_check: false,
        }
    }
}

pub open spec fn spec_start_pos() -> Board {
    Board {
        w_pawn: 0x0000_0000_0000_ff00,
        w_knight: 0x0000_0000_0000_0042,
        w_bishop: 0x0000_0000_0000_0024,
        w_rook: 0x0000_0000_0000_0081,
        w_queen: 0x0000_0000_0000_0008,
        w_king: 0x0000_0000_0000_0010,
        b_pawn: 0x00ff_0000_0000_0000,
        b_knight: 0x4200_0000_0000_0000,
        b_bishop: 0x2400_0000_0000_0000,
        b_rook: 0x8100_0000_0000_0000,
        b_queen: 0x0800_0000_0000_0000,
        b_king: 0x1000_0000_0000_0000,
        side_to_move: Color::White,
        can_castle: 0b1111,
        en_passant: None,
        in_check: false,
    }
}


} // verus!
