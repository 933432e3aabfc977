//! Piece kinds, colors, and their compact bit encoding.

use vstd::prelude::*;

verus! {

#[derive(PartialEq, Eq, Structural, Clone, Copy, Debug)]
pub enum PieceKind {
    Pawn,
    Knight,
    Bishop,
    Rook,
    Queen,
    King,
}

impl PieceKind {
    /// Index of the kind in the fixed order pawn..king, 0..6.
    pub open spec fn spec_index(self) -> u32 {
        match self {
            PieceKind::Pawn => 0u32,
            PieceKind::Knight => 1u32,
            PieceKind::Bishop => 2u32,
            PieceKind::Rook => 3u32,
            PieceKind::Queen => 4u32,
            PieceKind::King => 5u32,
        }
    }

    #[verifier::when_used_as_spec(spec_index)]
    pub fn index(self) -> (r: u32)
        ensures
            r == self.spec_index(),
    {
        match self {
            PieceKind::Pawn => 0,
            PieceKind::Knight => 1,
            PieceKind::Bishop => 2,
            PieceKind::Rook => 3,
            PieceKind::Queen => 4,
            PieceKind::King => 5,
        }
    }

    /// Lower-case letter naming the kind in FEN and move strings.
    pub open spec fn spec_letter(self) -> u8 {
        match self {
            PieceKind::Pawn => 112,
            PieceKind::Knight => 110,
            PieceKind::Bishop => 98,
            PieceKind::Rook => 114,
            PieceKind::Queen => 113,
            PieceKind::King => 107,
        }
    }

    /// The kind's lower-case letter, as a one-character string.
    pub fn letter(&self) -> (r: &'static str)
        ensures
            r@.len() == 1,
            r@[0] == self.spec_letter() as char,
    {
        proof {
            reveal_strlit("p");
            reveal_strlit("n");
            reveal_strlit("b");
            reveal_strlit("r");
            reveal_strlit("q");
            reveal_strlit("k");
        }
        match self {
            PieceKind::Pawn => "p",
            PieceKind::Knight => "n",
            PieceKind::Bishop => "b",
            PieceKind::Rook => "r",
            PieceKind::Queen => "q",
            PieceKind::King => "k",
        }
    }

    /// The kind's letter as an ASCII byte.
    #[verifier::when_used_as_spec(spec_letter)]
    pub fn letter_byte(self) -> (r: u8)
        ensures
            r == self.spec_letter(),
    {
        match self {
            PieceKind::Pawn => 112,
            PieceKind::Knight => 110,
            PieceKind::Bishop => 98,
            PieceKind::Rook => 114,
            PieceKind::Queen => 113,
            PieceKind::King => 107,
        }
    }
}

#[derive(PartialEq, Eq, Structural, Clone, Copy, Debug)]
pub enum Color {
    White,
    Black,
}

impl Color {
    pub open spec fn spec_opposite(self) -> Color {
        match self {
            Color::White => Color::Black,
            Color::Black => Color::White,
        }
    }

    #[verifier::when_used_as_spec(spec_opposite)]
    pub fn opposite(self) -> (r: Color)
        ensures
            r == self.spec_opposite(),
    {
        match self {
            Color::White => Color::Black,
            Color::Black => Color::White,
        }
    }
}

pub fn opposite_color(color: Color) -> (r: Color)
    ensures
        r == color.spec_opposite(),
{
    color.opposite()
}

#[derive(PartialEq, Eq, Structural, Clone, Copy, Debug)]
pub struct Piece {
    pub kind: PieceKind,
    pub color: Color,
}

impl Piece {
    pub fn new(kind: PieceKind, color: Color) -> (r: Piece)
        ensures
            r == (Piece { kind, color }),
    {
        Piece { kind, color }
    }

    /// Compact encoding: color bit shifted over the 3-bit kind index.
    pub open spec fn spec_to_bits(self) -> u32 {
        if self.color == Color::White {
            8u32 | self.kind.spec_index()
        } else {
            self.kind.spec_index()
        }
    }

    #[verifier::when_used_as_spec(spec_to_bits)]
    pub fn to_bits(self) -> (r: u32)
        ensures
            r == self.spec_to_bits(),
    {
        let k = self.kind.index();
        if self.color == Color::White {
            0b1000 | k
        } else {
            k
        }
    }

    /// Index of the piece among the twelve piece boards:
    /// white kinds 0..6, black kinds 6..12.
    pub open spec fn spec_table_index(self) -> u32 {
        if self.color == Color::White {
            self.kind.spec_index()
        } else {
            (self.kind.spec_index() + 6) as u32
        }
    }

    #[verifier::when_used_as_spec(spec_table_index)]
    pub fn table_index(self) -> (r: u32)
        ensures
            r == self.spec_table_index(),
    {
        match self.color {
            Color::White => self.kind.index(),
            Color::Black => self.kind.index() + 6,
        }
    }

    /// Decode the low four bits of an encoding; the kind bits must name
    /// one of the six kinds.
    pub fn from_bits(bits: u32) -> (r: Piece)
        requires
            bits & 0b111 < 6,
        ensures
            r.kind.spec_index() == bits & 0b111,
            r.color == Color::White <==> bits & 0b1000 != 0,
    {
        let color = if (bits & 0b1000) != 0 {
            Color::White
        } else {
            Color::Black
        };
        let kind = match bits & 0b111 {
            0 => PieceKind::Pawn,
            1 => PieceKind::Knight,
            2 => PieceKind::Bishop,
            3 => PieceKind::Rook,
            4 => PieceKind::Queen,
            _ => PieceKind::King,
        };
        Piece { kind, color }
    }

    /// Decoding an encoded piece gives the piece back.
    pub proof fn lemma_bits_round_trip(p: Piece)
        ensures
            p.spec_to_bits() & 0b111 == p.kind.spec_index(),
            p.spec_to_bits() & 0b1000 != 0 <==> p.color == Color::White,
    {
        assert(forall|k: u32| k < 6 ==> (8u32 | k) & 0b111 == k && (8u32 | k) & 0b1000 != 0)
            by (bit_vector);
        assert(forall|k: u32| k < 6 ==> k & 0b111 == k && k & 0b1000 == 0) by (bit_vector);
    }
}

} // verus!
