//! Moves: from- and to-square, the moving piece, a capture flag, and
//! the special-move marker.

use vstd::prelude::*;
use crate::piece::{Color, Piece, PieceKind};
use crate::square;

verus! {

#[derive(Clone, Copy, Debug)]
pub enum SpecialMove {
    DoublePush,
    EnPassant,
    Castle,
    Promotion(PieceKind),
}

#[derive(Clone, Copy, Debug)]
pub struct Move {
    pub from: u8,
    pub to: u8,
    pub piece: Piece,
    pub capture: bool,
    pub special: Option<SpecialMove>,
}

impl PartialEq for SpecialMove {
    fn eq(&self, other: &SpecialMove) -> (r: bool) {
        match (self, other) {
            (SpecialMove::DoublePush, SpecialMove::DoublePush) => true,
            (SpecialMove::EnPassant, SpecialMove::EnPassant) => true,
            (SpecialMove::Castle, SpecialMove::Castle) => true,
            (SpecialMove::Promotion(a), SpecialMove::Promotion(b)) => *a == *b,
            _ => false,
        }
    }
}

impl vstd::std_specs::cmp::PartialEqSpecImpl for SpecialMove {
    open spec fn obeys_eq_spec() -> bool {
        true
    }

    open spec fn eq_spec(&self, other: &SpecialMove) -> bool {
        *self == *other
    }
}

impl Eq for SpecialMove {

}

impl PartialEq for Move {
    fn eq(&self, other: &Move) -> (r: bool) {
        let special_eq = match (self.special, other.special) {
            (None, None) => true,
            (Some(a), Some(b)) => a == b,
            _ => false,
        };
        self.from == other.from && self.to == other.to && self.piece == other.piece
            && self.capture == other.capture && special_eq
    }
}

impl vstd::std_specs::cmp::PartialEqSpecImpl for Move {
    open spec fn obeys_eq_spec() -> bool {
        true
    }

    open spec fn eq_spec(&self, other: &Move) -> bool {
        *self == *other
    }
}

impl Eq for Move {

}

impl Move {
    /// The all-zero placeholder used to fill tables before any move is
    /// known.
    pub fn empty() -> (r: Move)
        ensures
            r == Move::spec_empty(),
    {
        Move {
            from: 0,
            to: 0,
            piece: Piece { kind: PieceKind::Pawn, color: Color::White },
            capture: false,
            special: None,
        }
    }

    pub open spec fn spec_empty() -> Move {
        Move {
            from: 0,
            to: 0,
            piece: Piece { kind: PieceKind::Pawn, color: Color::White },
            capture: false,
            special: None,
        }
    }

    /// The move's coordinate notation: from-square, to-square, and for a
    /// promotion `=` and the lower-case letter of the chosen kind.
    pub open spec fn spec_string_bytes(self) -> Seq<u8> {
        let base = square::spec_square_bytes(self.from) + square::spec_square_bytes(self.to);
        match self.special {
            Some(SpecialMove::Promotion(k)) => base + seq![61u8, k.spec_letter()],
            _ => base,
        }
    }

    pub fn string_bytes(&self) -> (r: Vec<u8>)
        requires
            self.from < 64,
            self.to < 64,
        ensures
            r@ == self.spec_string_bytes(),
    {
        let mut out: Vec<u8> = Vec::new();
        square::square_bytes(self.from, &mut out);
        square::square_bytes(self.to, &mut out);
        match self.special {
            Some(SpecialMove::Promotion(k)) => {
                out.push(61);
                out.push(k.letter_byte());
            },
            _ => {},
        }
        assert(out@ =~= self.spec_string_bytes());
        out
    }
}

} // verus!
