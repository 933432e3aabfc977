//! FEN: parsing the six-field position notation into a `Board` and
//! printing it back. The halfmove and fullmove fields are tolerated
//! and ignored.

use vstd::prelude::*;
use crate::attacks;
use crate::bits::{bit, set_bit, single_bit};
use crate::board::Board;
use crate::errors::EngineError;
use crate::piece::{Color, Piece, PieceKind};
use crate::square;
use vstd::string::StringSliceAdditionalSpecFns;

verus! {

/// ASCII space.
pub const SPACE: u8 = 32;

/// ASCII `/`.
pub const SLASH: u8 = 47;

/// ASCII `-`.
pub const DASH: u8 = 45;

/// ASCII `0`.
pub const DIGIT_ZERO: u8 = 48;

/// A board with no pieces, White to move, no rights, no target.
pub open spec fn spec_empty_board() -> Board {
    Board {
        w_pawn: 0,
        w_knight: 0,
        w_bishop: 0,
        w_rook: 0,
        w_queen: 0,
        w_king: 0,
        b_pawn: 0,
        b_knight: 0,
        b_bishop: 0,
        b_rook: 0,
        b_queen: 0,
        b_king: 0,
        side_to_move: Color::White,
        can_castle: 0,
        en_passant: None,
        in_check: false,
    }
}

pub fn empty_board() -> (r: Board)
    ensures
        r == spec_empty_board(),
{
    Board {
        w_pawn: 0,
        w_knight: 0,
        w_bishop: 0,
        w_rook: 0,
        w_queen: 0,
        w_king: 0,
        b_pawn: 0,
        b_knight: 0,
        b_bishop: 0,
        b_rook: 0,
        b_queen: 0,
        b_king: 0,
        side_to_move: Color::White,
        can_castle: 0,
        en_passant: None,
        in_check: false,
    }
}

/// The piece a FEN letter names: upper case White, lower case Black.
pub open spec fn spec_letter_piece(c: u8) -> Option<Piece> {
    if c == 80 {
        Some(Piece { kind: PieceKind::Pawn, color: Color::White })
    } else if c == 78 {
        Some(Piece { kind: PieceKind::Knight, color: Color::White })
    } else if c == 66 {
        Some(Piece { kind: PieceKind::Bishop, color: Color::White })
    } else if c == 82 {
        Some(Piece { kind: PieceKind::Rook, color: Color::White })
    } else if c == 81 {
        Some(Piece { kind: PieceKind::Queen, color: Color::White })
    } else if c == 75 {
        Some(Piece { kind: PieceKind::King, color: Color::White })
    } else if c == 112 {
        Some(Piece { kind: PieceKind::Pawn, color: Color::Black })
    } else if c == 110 {
        Some(Piece { kind: PieceKind::Knight, color: Color::Black })
    } else if c == 98 {
        Some(Piece { kind: PieceKind::Bishop, color: Color::Black })
    } else if c == 114 {
        Some(Piece { kind: PieceKind::Rook, color: Color::Black })
    } else if c == 113 {
        Some(Piece { kind: PieceKind::Queen, color: Color::Black })
    } else if c == 107 {
        Some(Piece { kind: PieceKind::King, color: Color::Black })
    } else {
        None
    }
}

#[verifier::when_used_as_spec(spec_letter_piece)]
pub fn letter_piece(c: u8) -> (r: Option<Piece>)
    ensures
        r == spec_letter_piece(c),
{
    if c == 80 {
        Some(Piece { kind: PieceKind::Pawn, color: Color::White })
    } else if c == 78 {
        Some(Piece { kind: PieceKind::Knight, color: Color::White })
    } else if c == 66 {
        Some(Piece { kind: PieceKind::Bishop, color: Color::White })
    } else if c == 82 {
        Some(Piece { kind: PieceKind::Rook, color: Color::White })
    } else if c == 81 {
        Some(Piece { kind: PieceKind::Queen, color: Color::White })
    } else if c == 75 {
        Some(Piece { kind: PieceKind::King, color: Color::White })
    } else if c == 112 {
        Some(Piece { kind: PieceKind::Pawn, color: Color::Black })
    } else if c == 110 {
        Some(Piece { kind: PieceKind::Knight, color: Color::Black })
    } else if c == 98 {
        Some(Piece { kind: PieceKind::Bishop, color: Color::Black })
    } else if c == 114 {
        Some(Piece { kind: PieceKind::Rook, color: Color::Black })
    } else if c == 113 {
        Some(Piece { kind: PieceKind::Queen, color: Color::Black })
    } else if c == 107 {
        Some(Piece { kind: PieceKind::King, color: Color::Black })
    } else {
        None
    }
}

/// The FEN letter naming a piece.
pub open spec fn spec_piece_letter(p: Piece) -> u8 {
    if p.color == Color::White {
        (p.kind.spec_letter() - 32) as u8
    } else {
        p.kind.spec_letter()
    }
}

pub fn piece_letter(p: Piece) -> (r: u8)
    ensures
        r == spec_piece_letter(p),
{
    let lower = p.kind.letter_byte();
    if p.color == Color::White {
        lower - 32
    } else {
        lower
    }
}

/// Walk the placement field: letters drop pieces on the scanned
/// square, digits skip files, `/` closes a rank. `Ok` carries the
/// filled board and the cursor after the field; `Err` the failing
/// byte's index.
pub open spec fn spec_parse_placement(s: Seq<u8>, i: int, rank: int, file: int, b: Board) -> Result<
    (Board, int),
    int,
>
    recommends
        0 <= i <= s.len(),
        0 <= rank < 8,
        0 <= file <= 8,
    decreases s.len() - i,
{
    if i < 0 || i >= s.len() || s[i] == SPACE {
        if rank == 0 && file == 8 {
            Ok((b, i))
        } else {
            Err(i)
        }
    } else if s[i] == SLASH {
        if file == 8 && rank > 0 {
            spec_parse_placement(s, i + 1, rank - 1, 0, b)
        } else {
            Err(i)
        }
    } else if DIGIT_ZERO + 1 <= s[i] <= DIGIT_ZERO + 8 {
        let n = s[i] - DIGIT_ZERO;
        if file + n <= 8 {
            spec_parse_placement(s, i + 1, rank, file + n, b)
        } else {
            Err(i)
        }
    } else {
        match spec_letter_piece(s[i]) {
            Some(p) => if file < 8 {
                let sq = (rank * 8 + file) as u64;
                spec_parse_placement(
                    s,
                    i + 1,
                    rank,
                    file + 1,
                    b.spec_with_bb(p, set_bit(b.spec_bb(p), sq)),
                )
            } else {
                Err(i)
            },
            None => Err(i),
        }
    }
}

fn parse_placement(s: &[u8]) -> (r: Result<(Board, usize), usize>)
    ensures
        match r {
            Ok((b, i)) => i <= s@.len() && spec_parse_placement(s@, 0, 7, 0, spec_empty_board())
                == Ok::<(Board, int), int>((b, i as int)),
            Err(p) => spec_parse_placement(s@, 0, 7, 0, spec_empty_board()) == Err::<
                (Board, int),
                int,
            >(p as int),
        },
{
    let mut b = empty_board();
    let mut i: usize = 0;
    let mut rank: u8 = 7;
    let mut file: u8 = 0;
    loop
        invariant
            0 <= rank < 8,
            file <= 8,
            i <= s@.len(),
            spec_parse_placement(s@, 0, 7, 0, spec_empty_board()) == spec_parse_placement(
                s@,
                i as int,
                rank as int,
                file as int,
                b,
            ),
        decreases s@.len() - i,
    {
        if i >= s.len() || s[i] == SPACE {
            if rank == 0 && file == 8 {
                return Ok((b, i));
            } else {
                return Err(i);
            }
        }
        let c = s[i];
        if c == SLASH {
            if file == 8 && rank > 0 {
                rank = rank - 1;
                file = 0;
                i = i + 1;
            } else {
                return Err(i);
            }
        } else if DIGIT_ZERO + 1 <= c && c <= DIGIT_ZERO + 8 {
            let n = c - DIGIT_ZERO;
            if file + n <= 8 {
                file = file + n;
                i = i + 1;
            } else {
                return Err(i);
            }
        } else {
            match letter_piece(c) {
                Some(p) => {
                    if file < 8 {
                        let sq: u64 = (rank * 8 + file) as u64;
                        let v = b.board(p);
                        b.set_board(p, crate::bits::with_bit(v, sq));
                        file = file + 1;
                        i = i + 1;
                    } else {
                        return Err(i);
                    }
                },
                None => {
                    return Err(i);
                },
            }
        }
    }
}

/// Read the castling field: `-` alone, or letters of `KQkq` setting
/// their rights.
pub open spec fn spec_parse_castling(s: Seq<u8>, i: int, acc: u8, any: bool) -> Result<
    (u8, int),
    int,
>
    decreases s.len() - i,
{
    if i < 0 || i >= s.len() || s[i] == SPACE {
        if any {
            Ok((acc, i))
        } else {
            Err(i)
        }
    } else if s[i] == DASH {
        if any {
            Err(i)
        } else {
            Ok((0u8, i + 1))
        }
    } else if s[i] == 75 {
        spec_parse_castling(s, i + 1, acc | crate::board::WHITE_KINGSIDE, true)
    } else if s[i] == 81 {
        spec_parse_castling(s, i + 1, acc | crate::board::WHITE_QUEENSIDE, true)
    } else if s[i] == 107 {
        spec_parse_castling(s, i + 1, acc | crate::board::BLACK_KINGSIDE, true)
    } else if s[i] == 113 {
        spec_parse_castling(s, i + 1, acc | crate::board::BLACK_QUEENSIDE, true)
    } else {
        Err(i)
    }
}

fn parse_castling(s: &[u8], start: usize) -> (r: Result<(u8, usize), usize>)
    requires
        start <= s@.len(),
    ensures
        match r {
            Ok((acc, i)) => i <= s@.len() && spec_parse_castling(s@, start as int, 0, false)
                == Ok::<(u8, int), int>((acc, i as int)),
            Err(p) => spec_parse_castling(s@, start as int, 0, false) == Err::<(u8, int), int>(
                p as int,
            ),
        },
{
    let mut i: usize = start;
    let mut acc: u8 = 0;
    let mut any: bool = false;
    loop
        invariant
            i <= s@.len(),
            spec_parse_castling(s@, start as int, 0, false) == spec_parse_castling(
                s@,
                i as int,
                acc,
                any,
            ),
        decreases s@.len() - i,
    {
        if i >= s.len() || s[i] == SPACE {
            if any {
                return Ok((acc, i));
            } else {
                return Err(i);
            }
        }
        let c = s[i];
        if c == DASH {
            if any {
                return Err(i);
            } else {
                return Ok((0, i + 1));
            }
        } else if c == 75 {
            acc = acc | crate::board::WHITE_KINGSIDE;
            any = true;
            i = i + 1;
        } else if c == 81 {
            acc = acc | crate::board::WHITE_QUEENSIDE;
            any = true;
            i = i + 1;
        } else if c == 107 {
            acc = acc | crate::board::BLACK_KINGSIDE;
            any = true;
            i = i + 1;
        } else if c == 113 {
            acc = acc | crate::board::BLACK_QUEENSIDE;
            any = true;
            i = i + 1;
        } else {
            return Err(i);
        }
    }
}

/// Parse a FEN byte string into a board. The placement, side,
/// castling and en-passant fields are read; anything after the
/// en-passant field is ignored.
pub open spec fn spec_from_fen(s: Seq<u8>) -> Result<Board, int> {
    match spec_parse_placement(s, 0, 7, 0, spec_empty_board()) {
        Err(p) => Err(p),
        Ok((b1, i1)) => if !(single_bit(b1.w_king) && single_bit(b1.b_king)) {
            Err(i1)
        } else if i1 >= s.len() || s[i1] != SPACE {
            Err(i1)
        } else if i1 + 1 >= s.len() {
            Err(i1 + 1)
        } else {
            let stm = if s[i1 + 1] == 119 {
                Some(Color::White)
            } else if s[i1 + 1] == 98 {
                Some(Color::Black)
            } else {
                None
            };
            match stm {
                None => Err(i1 + 1),
                Some(stm) => {
                    let i2 = i1 + 2;
                    if i2 >= s.len() || s[i2] != SPACE {
                        Err(i2)
                    } else {
                        match spec_parse_castling(s, i2 + 1, 0, false) {
                            Err(p) => Err(p),
                            Ok((rights, i3)) => if i3 >= s.len() || s[i3] != SPACE {
                                Err(i3)
                            } else {
                                let i4 = i3 + 1;
                                if i4 >= s.len() {
                                    Err(i4)
                                } else if s[i4] == DASH {
                                    Ok(spec_assemble(b1, stm, rights, None))
                                } else if i4 + 1 >= s.len() {
                                    Err(i4)
                                } else {
                                    match square::spec_parse_square(s[i4], s[i4 + 1]) {
                                        None => Err(i4),
                                        Some(t) => if (stm == Color::White && square::spec_rank(t)
                                            == 5) || (stm == Color::Black && square::spec_rank(t)
                                            == 2) {
                                            Ok(spec_assemble(b1, stm, rights, Some(t)))
                                        } else {
                                            Err(i4)
                                        },
                                    }
                                }
                            },
                        }
                    }
                },
            }
        },
    }
}

/// Fill in the scalar fields and recompute the check flag.
pub open spec fn spec_assemble(b: Board, stm: Color, rights: u8, ep: Option<u8>) -> Board {
    let b5 = Board { side_to_move: stm, can_castle: rights, en_passant: ep, ..b };
    Board { in_check: attacks::spec_in_check(b5, stm), ..b5 }
}

fn assemble(b: Board, stm: Color, rights: u8, ep: Option<u8>) -> (r: Board)
    ensures
        r == spec_assemble(b, stm, rights, ep),
{
    let mut b5 = b;
    b5.side_to_move = stm;
    b5.can_castle = rights;
    b5.en_passant = ep;
    let snapshot = b5;
    b5.in_check = attacks::in_check_for(&snapshot, stm);
    b5
}

impl Board {
    /// Parse a FEN position given as bytes.
    pub fn from_fen_bytes(s: &[u8]) -> (r: Result<Board, EngineError>)
        ensures
            match r {
                Ok(b) => spec_from_fen(s@) == Ok::<Board, int>(b),
                Err(e) => {
                    &&& e matches EngineError::MalformedFen(p)
                    &&& spec_from_fen(s@) == Err::<Board, int>(p as int)
                },
            },
    {
        let (b1, i1) = match parse_placement(s) {
            Ok(x) => x,
            Err(p) => {
                return Err(EngineError::MalformedFen(p));
            },
        };
        if !(crate::bits::is_single_bit(b1.w_king) && crate::bits::is_single_bit(b1.b_king)) {
            return Err(EngineError::MalformedFen(i1));
        }
        if i1 >= s.len() || s[i1] != SPACE {
            return Err(EngineError::MalformedFen(i1));
        }
        if i1 + 1 >= s.len() {
            return Err(EngineError::MalformedFen(i1 + 1));
        }
        let stm = if s[i1 + 1] == 119 {
            Color::White
        } else if s[i1 + 1] == 98 {
            Color::Black
        } else {
            return Err(EngineError::MalformedFen(i1 + 1));
        };
        let i2 = i1 + 2;
        if i2 >= s.len() || s[i2] != SPACE {
            return Err(EngineError::MalformedFen(i2));
        }
        let (rights, i3) = match parse_castling(s, i2 + 1) {
            Ok(x) => x,
            Err(p) => {
                return Err(EngineError::MalformedFen(p));
            },
        };
        if i3 >= s.len() || s[i3] != SPACE {
            return Err(EngineError::MalformedFen(i3));
        }
        let i4 = i3 + 1;
        if i4 >= s.len() {
            return Err(EngineError::MalformedFen(i4));
        }
        if s[i4] == DASH {
            return Ok(assemble(b1, stm, rights, None));
        }
        if i4 + 1 >= s.len() {
            return Err(EngineError::MalformedFen(i4));
        }
        match square::parse_square(s[i4], s[i4 + 1]) {
            None => Err(EngineError::MalformedFen(i4)),
            Some(t) => {
                let ok = (stm == Color::White && square::rank(t) == 5) || (stm == Color::Black
                    && square::rank(t) == 2);
                if ok {
                    Ok(assemble(b1, stm, rights, Some(t)))
                } else {
                    Err(EngineError::MalformedFen(i4))
                }
            },
        }
    }

    /// Parse a FEN position.
    pub fn from_fen(s: &str) -> (r: Result<Board, EngineError>)
        ensures
            match r {
                Ok(b) => spec_from_fen(s.spec_bytes()) == Ok::<Board, int>(b),
                Err(e) => {
                    &&& e matches EngineError::MalformedFen(p)
                    &&& spec_from_fen(s.spec_bytes()) == Err::<Board, int>(p as int)
                },
            },
    {
        Board::from_fen_bytes(s.as_bytes())
    }
}

/// One rank of the placement field, from `file` on: run lengths of
/// empty squares as digits, pieces as letters; `pending` counts the
/// empty squares not yet flushed.
pub open spec fn spec_rank_bytes(b: Board, rank: int, file: int, pending: int) -> Seq<u8>
    recommends
        0 <= rank < 8,
        0 <= file <= 8,
        0 <= pending <= file,
    decreases 8 - file,
{
    if file < 0 || file >= 8 {
        if pending > 0 {
            seq![(DIGIT_ZERO + pending) as u8]
        } else {
            Seq::empty()
        }
    } else {
        match b.spec_piece_at((rank * 8 + file) as u8) {
            None => spec_rank_bytes(b, rank, file + 1, pending + 1),
            Some(p) => (if pending > 0 {
                seq![(DIGIT_ZERO + pending) as u8]
            } else {
                Seq::empty()
            }) + seq![spec_piece_letter(p)] + spec_rank_bytes(b, rank, file + 1, 0),
        }
    }
}

/// The placement field from `rank` down to rank 0, `/`-separated.
pub open spec fn spec_placement_bytes(b: Board, rank: int) -> Seq<u8>
    recommends
        0 <= rank < 8,
    decreases rank,
{
    if rank <= 0 {
        spec_rank_bytes(b, 0, 0, 0)
    } else {
        spec_rank_bytes(b, rank, 0, 0) + seq![SLASH] + spec_placement_bytes(b, rank - 1)
    }
}

/// The castling field: the surviving rights' letters, `-` when none.
pub open spec fn spec_castling_bytes(rights: u8) -> Seq<u8> {
    if rights == 0 {
        seq![DASH]
    } else {
        (if rights & crate::board::WHITE_KINGSIDE != 0 {
            seq![75u8]
        } else {
            Seq::empty()
        }) + (if rights & crate::board::WHITE_QUEENSIDE != 0 {
            seq![81u8]
        } else {
            Seq::empty()
        }) + (if rights & crate::board::BLACK_KINGSIDE != 0 {
            seq![107u8]
        } else {
            Seq::empty()
        }) + (if rights & crate::board::BLACK_QUEENSIDE != 0 {
            seq![113u8]
        } else {
            Seq::empty()
        })
    }
}

pub open spec fn spec_ep_bytes(ep: Option<u8>) -> Seq<u8> {
    match ep {
        None => seq![DASH],
        Some(t) => if t < 64 {
            square::spec_square_bytes(t)
        } else {
            seq![DASH]
        },
    }
}

pub open spec fn spec_side_byte(c: Color) -> u8 {
    if c == Color::White {
        119
    } else {
        98
    }
}

/// The FEN of a board: the four stored fields, then the ignored
/// halfmove and fullmove fields as `0 1`.
pub open spec fn spec_to_fen(b: Board) -> Seq<u8> {
    spec_placement_bytes(b, 7) + seq![SPACE, spec_side_byte(b.side_to_move), SPACE]
        + spec_castling_bytes(b.can_castle) + seq![SPACE] + spec_ep_bytes(b.en_passant)
        + seq![SPACE, DIGIT_ZERO, SPACE, (DIGIT_ZERO + 1) as u8]
}

fn rank_bytes(b: &Board, rank: u8, file: u8, pending: u8, out: &mut Vec<u8>)
    requires
        rank < 8,
        file <= 8,
        pending <= file,
    ensures
        final(out)@ == old(out)@ + spec_rank_bytes(*b, rank as int, file as int, pending as int),
    decreases 8 - file,
{
    if file >= 8 {
        if pending > 0 {
            out.push(DIGIT_ZERO + pending);
        }
    } else {
        match b.piece(rank * 8 + file) {
            None => {
                rank_bytes(b, rank, file + 1, pending + 1, out);
            },
            Some(p) => {
                if pending > 0 {
                    out.push(DIGIT_ZERO + pending);
                }
                out.push(piece_letter(p));
                rank_bytes(b, rank, file + 1, 0, out);
            },
        }
    }
    assert(out@ =~= old(out)@ + spec_rank_bytes(*b, rank as int, file as int, pending as int));
}

fn placement_bytes(b: &Board, rank: u8, out: &mut Vec<u8>)
    requires
        rank < 8,
    ensures
        final(out)@ == old(out)@ + spec_placement_bytes(*b, rank as int),
    decreases rank,
{
    if rank == 0 {
        rank_bytes(b, 0, 0, 0, out);
    } else {
        rank_bytes(b, rank, 0, 0, out);
        out.push(SLASH);
        placement_bytes(b, rank - 1, out);
    }
    assert(out@ =~= old(out)@ + spec_placement_bytes(*b, rank as int));
}

impl Board {
    /// Print the position as FEN bytes.
    #[verifier::rlimit(60)]
    pub fn to_fen_bytes(&self) -> (r: Vec<u8>)
        ensures
            r@ == spec_to_fen(*self),
    {
        let ghost head = spec_placement_bytes(*self, 7) + seq![
            SPACE,
            spec_side_byte(self.side_to_move),
            SPACE,
        ];
        let mut out: Vec<u8> = Vec::new();
        placement_bytes(self, 7, &mut out);
        out.push(SPACE);
        out.push(if self.side_to_move == Color::White {
            119
        } else {
            98
        });
        out.push(SPACE);
        assert(out@ =~= head);
        if self.can_castle == 0 {
            out.push(DASH);
        } else {
            if self.can_castle & crate::board::WHITE_KINGSIDE != 0 {
                out.push(75);
            }
            if self.can_castle & crate::board::WHITE_QUEENSIDE != 0 {
                out.push(81);
            }
            if self.can_castle & crate::board::BLACK_KINGSIDE != 0 {
                out.push(107);
            }
            if self.can_castle & crate::board::BLACK_QUEENSIDE != 0 {
                out.push(113);
            }
        }
        assert(out@ =~= head + spec_castling_bytes(self.can_castle));
        out.push(SPACE);
        match self.en_passant {
            None => {
                out.push(DASH);
            },
            Some(t) => {
                if t < 64 {
                    square::square_bytes(t, &mut out);
                } else {
                    out.push(DASH);
                }
            },
        }
        assert(out@ =~= head + spec_castling_bytes(self.can_castle) + seq![SPACE] + spec_ep_bytes(
            self.en_passant,
        ));
        out.push(SPACE);
        out.push(DIGIT_ZERO);
        out.push(SPACE);
        out.push(DIGIT_ZERO + 1);
        assert(out@ =~= spec_to_fen(*self));
        out
    }
}

} // verus!
