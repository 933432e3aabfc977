//! The library's standing guarantees, proved once: legal moves keep
//! the king safe, playing a move preserves the board's structural
//! invariants, equal boards hash equal, and the evaluation is
//! antisymmetric under mirroring.

use vstd::prelude::*;
use crate::attacks;
use crate::bits::{
    bit, clear_bit, lemma_bit_clear, lemma_bit_set, lemma_clear_absent, lemma_disjoint_bit,
    lemma_disjoint_grow, lemma_disjoint_mask, lemma_rights_mask, lemma_single_bit_at,
    lemma_sq_mask, set_bit, single_bit, sq_mask,
};
use crate::board::{
    boards_disjoint, move_ok, one_king_each, sm_capture, sm_castle_rook, sm_move_piece,
    sm_promote, spec_capture_square, spec_captures_king, spec_castle_rook_squares,
    spec_make_move, wf_board, Board,
};
use crate::movegen::{lemma_piece_at_none, lemma_piece_at_some, spec_legal_moves};
use crate::moves::{Move, SpecialMove};
use crate::piece::{Color, Piece, PieceKind};

verus! {

/// No board holds the square's bit.
pub open spec fn no_bit_anywhere(b: Board, sq: u64) -> bool {
    forall|p: Piece| !bit(#[trigger] b.spec_bb(p), sq)
}

/// Replacing one piece's board changes no other board and no scalar
/// field.
proof fn lemma_with_bb_frame(b: Board, p: Piece, v: u64, q: Piece)
    ensures
        b.spec_with_bb(p, v).spec_bb(q) == (if q == p {
            v
        } else {
            b.spec_bb(q)
        }),
        b.spec_with_bb(p, v).side_to_move == b.side_to_move,
        b.spec_with_bb(p, v).can_castle == b.can_castle,
        b.spec_with_bb(p, v).en_passant == b.en_passant,
        b.spec_with_bb(p, v).in_check == b.in_check,
{
}

/// Clearing a square on one board keeps the boards disjoint, keeps
/// every empty square empty, and empties the cleared square there.
proof fn lemma_clear_step(b: Board, p: Piece, sq: u64)
    requires
        boards_disjoint(b),
        sq < 64,
    ensures
        ({
            let b2 = b.spec_with_bb(p, clear_bit(b.spec_bb(p), sq));
            &&& boards_disjoint(b2)
            &&& !bit(b2.spec_bb(p), sq)
            &&& forall|q: Piece| q != p ==> b2.spec_bb(q) == b.spec_bb(q)
            &&& forall|s: u64| s < 64 && no_bit_anywhere(b, s) ==> no_bit_anywhere(b2, s)
        }),
{
    let b2 = b.spec_with_bb(p, clear_bit(b.spec_bb(p), sq));
    assert forall|q: Piece| q != p implies b2.spec_bb(q) == b.spec_bb(q) by {
        lemma_with_bb_frame(b, p, clear_bit(b.spec_bb(p), sq), q);
    }
    lemma_with_bb_frame(b, p, clear_bit(b.spec_bb(p), sq), p);
    lemma_clear_absent(b.spec_bb(p), sq);
    assert forall|p1: Piece, p2: Piece| p1 != p2 implies #[trigger] b2.spec_bb(p1)
        & #[trigger] b2.spec_bb(p2) == 0 by {
        lemma_with_bb_frame(b, p, clear_bit(b.spec_bb(p), sq), p1);
        lemma_with_bb_frame(b, p, clear_bit(b.spec_bb(p), sq), p2);
        assert(b.spec_bb(p1) & b.spec_bb(p2) == 0);
        lemma_disjoint_mask(b.spec_bb(p1), b.spec_bb(p2), !sq_mask(sq), !sq_mask(sq));
    }
    assert forall|s: u64| s < 64 && no_bit_anywhere(b, s) implies no_bit_anywhere(b2, s) by {
        assert forall|q: Piece| !bit(#[trigger] b2.spec_bb(q), s) by {
            lemma_with_bb_frame(b, p, clear_bit(b.spec_bb(p), sq), q);
            assert(!bit(b.spec_bb(q), s));
            lemma_bit_clear(b.spec_bb(p), sq, s);
        }
    }
}

/// Setting a globally empty square on one board keeps the boards
/// disjoint and keeps every other empty square empty.
proof fn lemma_set_step(b: Board, p: Piece, sq: u64)
    requires
        boards_disjoint(b),
        sq < 64,
        no_bit_anywhere(b, sq),
    ensures
        ({
            let b2 = b.spec_with_bb(p, set_bit(b.spec_bb(p), sq));
            &&& boards_disjoint(b2)
            &&& bit(b2.spec_bb(p), sq)
            &&& forall|q: Piece| q != p ==> b2.spec_bb(q) == b.spec_bb(q)
            &&& forall|s: u64| s < 64 && s != sq && no_bit_anywhere(b, s) ==> no_bit_anywhere(
                b2,
                s,
            )
        }),
{
    let b2 = b.spec_with_bb(p, set_bit(b.spec_bb(p), sq));
    assert forall|q: Piece| q != p implies b2.spec_bb(q) == b.spec_bb(q) by {
        lemma_with_bb_frame(b, p, set_bit(b.spec_bb(p), sq), q);
    }
    lemma_with_bb_frame(b, p, set_bit(b.spec_bb(p), sq), p);
    lemma_bit_set(b.spec_bb(p), sq, sq);
    assert forall|p1: Piece, p2: Piece| p1 != p2 implies #[trigger] b2.spec_bb(p1)
        & #[trigger] b2.spec_bb(p2) == 0 by {
        lemma_with_bb_frame(b, p, set_bit(b.spec_bb(p), sq), p1);
        lemma_with_bb_frame(b, p, set_bit(b.spec_bb(p), sq), p2);
        assert(b.spec_bb(p1) & b.spec_bb(p2) == 0);
        if p1 == p {
            assert(!bit(b.spec_bb(p2), sq));
            lemma_disjoint_grow(b.spec_bb(p1), b.spec_bb(p2), sq);
        } else if p2 == p {
            assert(!bit(b.spec_bb(p1), sq));
            lemma_disjoint_grow(b.spec_bb(p2), b.spec_bb(p1), sq);
        }
    }
    assert forall|s: u64| s < 64 && s != sq && no_bit_anywhere(b, s) implies no_bit_anywhere(
        b2,
        s,
    ) by {
        assert forall|q: Piece| !bit(#[trigger] b2.spec_bb(q), s) by {
            lemma_with_bb_frame(b, p, set_bit(b.spec_bb(p), sq), q);
            assert(!bit(b.spec_bb(q), s));
            lemma_bit_set(b.spec_bb(p), sq, s);
        }
    }
}

/// Writing the same piece's board twice keeps only the second write.
proof fn lemma_with_bb_twice(b: Board, p: Piece, v1: u64, v2: u64)
    ensures
        b.spec_with_bb(p, v1).spec_with_bb(p, v2) == b.spec_with_bb(p, v2),
{
}

/// After the capture step the boards are disjoint, the target square
/// is empty everywhere, and the mover's and kings' boards, and all
/// scalars, are untouched.
proof fn lemma_stage_capture(b: Board, m: Move)
    requires
        boards_disjoint(b),
        move_ok(b, m),
        !spec_captures_king(b, m),
    ensures
        ({
            let b1 = sm_capture(b, m);
            &&& boards_disjoint(b1)
            &&& no_bit_anywhere(b1, m.to as u64)
            &&& b1.spec_bb(m.piece) == b.spec_bb(m.piece)
            &&& b1.spec_bb(Piece { kind: PieceKind::King, color: Color::White }) == b.spec_bb(
                Piece { kind: PieceKind::King, color: Color::White },
            )
            &&& b1.spec_bb(Piece { kind: PieceKind::King, color: Color::Black }) == b.spec_bb(
                Piece { kind: PieceKind::King, color: Color::Black },
            )
            &&& b1.can_castle == b.can_castle
            &&& forall|s: u64| s < 64 && no_bit_anywhere(b, s) ==> no_bit_anywhere(b1, s)
        }),
{
    let b1 = sm_capture(b, m);
    let to = m.to as u64;
    if !m.capture {
        lemma_piece_at_none(b, m.to);
    } else if m.special == Some(SpecialMove::EnPassant) {
        lemma_piece_at_none(b, m.to);
        let cp = Piece { kind: PieceKind::Pawn, color: m.piece.color.spec_opposite() };
        let cs = spec_capture_square(m) as u64;
        lemma_clear_step(b, cp, cs);
        assert forall|q: Piece| !bit(#[trigger] b1.spec_bb(q), to) by {
            lemma_with_bb_frame(b, cp, clear_bit(b.spec_bb(cp), cs), q);
            assert(!bit(b.spec_bb(q), to));
            lemma_bit_clear(b.spec_bb(cp), cs, to);
        }
        lemma_with_bb_frame(b, cp, clear_bit(b.spec_bb(cp), cs), m.piece);
        lemma_with_bb_frame(
            b,
            cp,
            clear_bit(b.spec_bb(cp), cs),
            Piece { kind: PieceKind::King, color: Color::White },
        );
        lemma_with_bb_frame(
            b,
            cp,
            clear_bit(b.spec_bb(cp), cs),
            Piece { kind: PieceKind::King, color: Color::Black },
        );
    } else {
        let cp = b.spec_piece_at(m.to).unwrap();
        lemma_piece_at_some(b, m.to, cp);
        lemma_clear_step(b, cp, to);
        assert(b1 == b.spec_with_bb(cp, clear_bit(b.spec_bb(cp), to)));
        assert forall|q: Piece| !bit(#[trigger] b1.spec_bb(q), to) by {
            lemma_with_bb_frame(b, cp, clear_bit(b.spec_bb(cp), to), q);
            if q != cp {
                assert(b.spec_bb(cp) & b.spec_bb(q) == 0);
                lemma_disjoint_bit(b.spec_bb(cp), b.spec_bb(q), to);
            } else {
                lemma_clear_absent(b.spec_bb(cp), to);
            }
        }
        assert(cp.color == m.piece.color.spec_opposite());
        assert(cp != m.piece);
        assert(cp.kind != PieceKind::King);
        lemma_with_bb_frame(b, cp, clear_bit(b.spec_bb(cp), to), m.piece);
        lemma_with_bb_frame(
            b,
            cp,
            clear_bit(b.spec_bb(cp), to),
            Piece { kind: PieceKind::King, color: Color::White },
        );
        lemma_with_bb_frame(
            b,
            cp,
            clear_bit(b.spec_bb(cp), to),
            Piece { kind: PieceKind::King, color: Color::Black },
        );
    }
}

/// After the movement step the boards are disjoint, the target bit
/// sits on the mover's board alone, and other boards and the scalars
/// are untouched.
proof fn lemma_stage_move(b1: Board, m: Move)
    requires
        boards_disjoint(b1),
        m.from < 64,
        m.to < 64,
        m.from != m.to,
        no_bit_anywhere(b1, m.to as u64),
    ensures
        ({
            let b2 = sm_move_piece(b1, m);
            &&& boards_disjoint(b2)
            &&& b2.spec_bb(m.piece) == set_bit(
                clear_bit(b1.spec_bb(m.piece), m.from as u64),
                m.to as u64,
            )
            &&& forall|q: Piece| q != m.piece ==> b2.spec_bb(q) == b1.spec_bb(q)
            &&& forall|q: Piece| q != m.piece ==> !bit(#[trigger] b2.spec_bb(q), m.to as u64)
            &&& b2.can_castle == b1.can_castle
            &&& forall|s: u64| s < 64 && s != m.to && no_bit_anywhere(b1, s) ==> no_bit_anywhere(
                b2,
                s,
            )
        }),
{
    let p = m.piece;
    let from = m.from as u64;
    let to = m.to as u64;
    let bi = b1.spec_with_bb(p, clear_bit(b1.spec_bb(p), from));
    lemma_clear_step(b1, p, from);
    assert(no_bit_anywhere(bi, to)) by {
        assert forall|q: Piece| !bit(#[trigger] bi.spec_bb(q), to) by {
            lemma_with_bb_frame(b1, p, clear_bit(b1.spec_bb(p), from), q);
            assert(!bit(b1.spec_bb(q), to));
            lemma_bit_clear(b1.spec_bb(p), from, to);
        }
    }
    lemma_set_step(bi, p, to);
    lemma_with_bb_frame(b1, p, clear_bit(b1.spec_bb(p), from), p);
    lemma_with_bb_twice(b1, p, clear_bit(b1.spec_bb(p), from), set_bit(bi.spec_bb(p), to));
    let b2 = sm_move_piece(b1, m);
    assert(b2 == bi.spec_with_bb(p, set_bit(bi.spec_bb(p), to)));
    assert forall|q: Piece| q != m.piece implies b2.spec_bb(q) == b1.spec_bb(q) by {
        lemma_with_bb_frame(bi, p, set_bit(bi.spec_bb(p), to), q);
        lemma_with_bb_frame(b1, p, clear_bit(b1.spec_bb(p), from), q);
    }
    assert forall|q: Piece| q != m.piece implies !bit(#[trigger] b2.spec_bb(q), to) by {
        assert(b2.spec_bb(q) == b1.spec_bb(q));
        assert(!bit(b1.spec_bb(q), to));
    }
    assert forall|s: u64| s < 64 && s != m.to && no_bit_anywhere(b1, s) implies no_bit_anywhere(
        b2,
        s,
    ) by {
        assert forall|q: Piece| !bit(#[trigger] b2.spec_bb(q), s) by {
            lemma_with_bb_frame(bi, p, set_bit(bi.spec_bb(p), to), q);
            lemma_with_bb_frame(b1, p, clear_bit(b1.spec_bb(p), from), q);
            assert(!bit(b1.spec_bb(q), s));
            lemma_bit_clear(b1.spec_bb(p), from, s);
            lemma_bit_set(bi.spec_bb(p), to, s);
        }
    }
}

/// Playing a sound, non-king-capturing move on a well-formed board
/// yields a well-formed board, and castling rights are never gained.
pub proof fn lemma_make_move_preserves(b: Board, m: Move)
    requires
        wf_board(b),
        move_ok(b, m),
        !spec_captures_king(b, m),
    ensures
        wf_board(spec_make_move(b, m)),
        spec_make_move(b, m).can_castle & b.can_castle == spec_make_move(b, m).can_castle,
{
    let us = m.piece.color;
    let from = m.from as u64;
    let to = m.to as u64;
    let kw = Piece { kind: PieceKind::King, color: Color::White };
    let kb = Piece { kind: PieceKind::King, color: Color::Black };
    let b1 = sm_capture(b, m);
    lemma_stage_capture(b, m);
    let b2 = sm_move_piece(b1, m);
    lemma_stage_move(b1, m);
    // kings through the movement step
    assert(single_bit(b2.spec_bb(kw)) && single_bit(b2.spec_bb(kb))) by {
        if m.piece == kw {
            lemma_single_bit_at(b1.spec_bb(kw), from);
            lemma_sq_mask(from);
            lemma_sq_mask(to);
            assert(clear_bit(sq_mask(from), from) == 0);
            assert(b2.spec_bb(kw) == set_bit(0, to));
        } else if m.piece == kb {
            lemma_single_bit_at(b1.spec_bb(kb), from);
            lemma_sq_mask(from);
            lemma_sq_mask(to);
            assert(b2.spec_bb(kb) == set_bit(0, to));
        }
    }
    let b3 = sm_promote(b2, m);
    let b4 = sm_castle_rook(b3, m);
    match m.special {
        Some(SpecialMove::Promotion(k)) => {
            let pawn = Piece { kind: PieceKind::Pawn, color: us };
            let promo = Piece { kind: k, color: us };
            assert(m.piece == pawn);
            let bi = b2.spec_with_bb(pawn, clear_bit(b2.spec_bb(pawn), to));
            lemma_clear_step(b2, pawn, to);
            assert(no_bit_anywhere(bi, to)) by {
                assert forall|q: Piece| !bit(#[trigger] bi.spec_bb(q), to) by {
                    lemma_with_bb_frame(b2, pawn, clear_bit(b2.spec_bb(pawn), to), q);
                    if q != pawn {
                        assert(!bit(b2.spec_bb(q), to));
                    } else {
                        lemma_clear_absent(b2.spec_bb(pawn), to);
                    }
                }
            }
            lemma_set_step(bi, promo, to);
            assert(b3 == bi.spec_with_bb(promo, set_bit(bi.spec_bb(promo), to)));
            assert(boards_disjoint(b3));
            assert(b3.spec_bb(kw) == b2.spec_bb(kw) && b3.spec_bb(kb) == b2.spec_bb(kb)) by {
                lemma_with_bb_frame(b2, pawn, clear_bit(b2.spec_bb(pawn), to), kw);
                lemma_with_bb_frame(b2, pawn, clear_bit(b2.spec_bb(pawn), to), kb);
                lemma_with_bb_frame(bi, promo, set_bit(bi.spec_bb(promo), to), kw);
                lemma_with_bb_frame(bi, promo, set_bit(bi.spec_bb(promo), to), kb);
            }
            assert(b4 == b3);
        },
        Some(SpecialMove::Castle) => {
            assert(b3 == b2);
            let rook = Piece { kind: PieceKind::Rook, color: us };
            let corner = spec_castle_rook_squares(m.to).0 as u64;
            let rt = spec_castle_rook_squares(m.to).1 as u64;
            assert(corner < 64 && rt < 64 && rt != to);
            assert(no_bit_anywhere(b, rt)) by {
                lemma_piece_at_none(b, spec_castle_rook_squares(m.to).1);
            }
            assert(no_bit_anywhere(b1, rt));
            assert(no_bit_anywhere(b2, rt));
            let bi = b2.spec_with_bb(rook, clear_bit(b2.spec_bb(rook), corner));
            lemma_clear_step(b2, rook, corner);
            assert(no_bit_anywhere(bi, rt)) by {
                assert forall|q: Piece| !bit(#[trigger] bi.spec_bb(q), rt) by {
                    lemma_with_bb_frame(b2, rook, clear_bit(b2.spec_bb(rook), corner), q);
                    assert(!bit(b2.spec_bb(q), rt));
                    lemma_bit_clear(b2.spec_bb(rook), corner, rt);
                }
            }
            lemma_set_step(bi, rook, rt);
            lemma_with_bb_frame(b2, rook, clear_bit(b2.spec_bb(rook), corner), rook);
            lemma_with_bb_twice(
                b2,
                rook,
                clear_bit(b2.spec_bb(rook), corner),
                set_bit(bi.spec_bb(rook), rt),
            );
            assert(b4 == bi.spec_with_bb(rook, set_bit(bi.spec_bb(rook), rt)));
            assert(boards_disjoint(b4));
            assert(b4.spec_bb(kw) == b2.spec_bb(kw) && b4.spec_bb(kb) == b2.spec_bb(kb)) by {
                lemma_with_bb_frame(b2, rook, clear_bit(b2.spec_bb(rook), corner), kw);
                lemma_with_bb_frame(b2, rook, clear_bit(b2.spec_bb(rook), corner), kb);
                lemma_with_bb_frame(bi, rook, set_bit(bi.spec_bb(rook), rt), kw);
                lemma_with_bb_frame(bi, rook, set_bit(bi.spec_bb(rook), rt), kb);
            }
        },
        _ => {
            assert(b3 == b2);
            assert(b4 == b3);
        },
    }
    let bf = spec_make_move(b, m);
    assert(forall|q: Piece| bf.spec_bb(q) == #[trigger] b4.spec_bb(q));
    assert(boards_disjoint(bf)) by {
        assert forall|p1: Piece, p2: Piece| p1 != p2 implies #[trigger] bf.spec_bb(p1)
            & #[trigger] bf.spec_bb(p2) == 0 by {
            assert(b4.spec_bb(p1) & b4.spec_bb(p2) == 0);
        }
    }
    assert(one_king_each(bf)) by {
        assert(bf.spec_bb(kw) == b4.spec_bb(kw) && bf.spec_bb(kb) == b4.spec_bb(kb));
    }
    // castling rights shrink and stay in range
    assert(b4.can_castle == b.can_castle);
    lemma_rights_mask(
        b.can_castle,
        crate::board::spec_castle_mask(m.from),
        crate::board::spec_castle_mask(m.to),
    );
    // the new en-passant target, when set, is behind a double push
    assert(bf.en_passant matches Some(t) ==> t < 64 && (crate::square::spec_rank(t) == 2
        || crate::square::spec_rank(t) == 5));
}

/// No legal move leaves the mover's king attacked in the position it
/// produces.
pub proof fn lemma_legal_moves_king_safe(b: Board, i: int)
    requires
        0 <= i < spec_legal_moves(b).len(),
    ensures
        ({
            let m = spec_legal_moves(b)[i];
            let b2 = spec_make_move(b, m);
            let ks = b2.spec_king_square(b.side_to_move);
            !(ks < 64 && attacks::spec_square_attacked(b2, ks, b.side_to_move.spec_opposite()))
        }),
{
    crate::movegen::lemma_legal_moves_ok(b);
}

/// Playing a legal move that does not take the opposing king keeps
/// the board well-formed and never grants castling rights.
pub proof fn lemma_legal_move_preserves(b: Board, i: int)
    requires
        wf_board(b),
        0 <= i < spec_legal_moves(b).len(),
        !spec_captures_king(b, spec_legal_moves(b)[i]),
    ensures
        wf_board(spec_make_move(b, spec_legal_moves(b)[i])),
        spec_make_move(b, spec_legal_moves(b)[i]).can_castle & b.can_castle == spec_make_move(
            b,
            spec_legal_moves(b)[i],
        ).can_castle,
{
    crate::movegen::lemma_legal_moves_ok(b);
    lemma_make_move_preserves(b, spec_legal_moves(b)[i]);
}

/// Equal positions hash equally under one key seed, whichever table
/// instance computes the hash.
pub proof fn lemma_hash_of_equal_boards(seed: u64, b1: Board, b2: Board)
    requires
        b1 == b2,
    ensures
        crate::zobrist::spec_hash(seed, b1) == crate::zobrist::spec_hash(seed, b2),
{
}

/// The piece with its color turned around.
pub open spec fn spec_swap_color(p: Option<Piece>) -> Option<Piece> {
    match p {
        Some(q) => Some(Piece { kind: q.kind, color: q.color.spec_opposite() }),
        None => None,
    }
}

/// `bm` is `b` with the colors swapped and the ranks mirrored.
pub open spec fn boards_mirrored(b: Board, bm: Board) -> bool {
    &&& bm.side_to_move == b.side_to_move.spec_opposite()
    &&& forall|sq: u8| sq < 64 ==> #[trigger] bm.spec_piece_at(sq) == spec_swap_color(
        b.spec_piece_at(crate::square::spec_mirror(sq)),
    )
}

/// One square of the mirror scores for `c` what its mirror square
/// scores for the other color.
proof fn lemma_square_score_mirror(b: Board, bm: Board, c: Color, sq: u8)
    requires
        boards_mirrored(b, bm),
        sq < 64,
    ensures
        crate::eval::spec_square_score(bm, c, sq) == crate::eval::spec_square_score(
            b,
            c.spec_opposite(),
            crate::square::spec_mirror(sq),
        ),
{
    crate::square::lemma_mirror_involution(sq);
}

/// The sum of the first `f` files of one rank.
pub open spec fn spec_rank_partial(b: Board, c: Color, r: int, f: int) -> int
    decreases f,
{
    if f <= 0 {
        0
    } else {
        spec_rank_partial(b, c, r, f - 1) + crate::eval::spec_square_score(
            b,
            c,
            (r * 8 + (f - 1)) as u8,
        )
    }
}

/// A color's score accumulates rank by rank.
proof fn lemma_score_ranks(b: Board, c: Color, r: int, f: int)
    requires
        0 <= r < 8,
        0 <= f <= 8,
    ensures
        crate::eval::spec_score_upto(b, c, r * 8 + f) == crate::eval::spec_score_upto(b, c, r * 8)
            + spec_rank_partial(b, c, r, f),
    decreases f,
{
    if f > 0 {
        lemma_score_ranks(b, c, r, f - 1);
    }
}

/// Matching ranks of a board and its mirror sum the same.
proof fn lemma_rank_mirror(b: Board, bm: Board, c: Color, r: int, f: int)
    requires
        boards_mirrored(b, bm),
        0 <= r < 8,
        0 <= f <= 8,
    ensures
        spec_rank_partial(bm, c, r, f) == spec_rank_partial(b, c.spec_opposite(), 7 - r, f),
    decreases f,
{
    if f > 0 {
        lemma_rank_mirror(b, bm, c, r, f - 1);
        let sq = (r * 8 + (f - 1)) as u8;
        lemma_square_score_mirror(b, bm, c, sq);
        assert(crate::square::spec_mirror(sq) == ((7 - r) * 8 + (f - 1)) as u8);
    }
}

/// A color's whole score on the mirror equals the other color's score
/// on the original.
proof fn lemma_color_score_mirror(b: Board, bm: Board, c: Color)
    requires
        boards_mirrored(b, bm),
    ensures
        crate::eval::spec_color_score(bm, c) == crate::eval::spec_color_score(
            b,
            c.spec_opposite(),
        ),
{
    let copp = c.spec_opposite();
    assert forall|r: int| 0 <= r < 8 implies spec_rank_partial(bm, c, r, 8) == spec_rank_partial(
        b,
        copp,
        7 - r,
        8,
    ) by {
        lemma_rank_mirror(b, bm, c, r, 8);
    }
    assert forall|r: int| 0 <= r < 8 implies crate::eval::spec_score_upto(bm, c, r * 8 + 8)
        == crate::eval::spec_score_upto(bm, c, r * 8) + spec_rank_partial(bm, c, r, 8) by {
        lemma_score_ranks(bm, c, r, 8);
    }
    assert forall|r: int| 0 <= r < 8 implies crate::eval::spec_score_upto(b, copp, r * 8 + 8)
        == crate::eval::spec_score_upto(b, copp, r * 8) + spec_rank_partial(b, copp, r, 8) by {
        lemma_score_ranks(b, copp, r, 8);
    }
    let t = |bb: Board, cc: Color, r: int| spec_rank_partial(bb, cc, r, 8);
    assert(crate::eval::spec_color_score(bm, c) == t(bm, c, 0) + t(bm, c, 1) + t(bm, c, 2) + t(
        bm,
        c,
        3,
    ) + t(bm, c, 4) + t(bm, c, 5) + t(bm, c, 6) + t(bm, c, 7));
    assert(crate::eval::spec_color_score(b, copp) == t(b, copp, 0) + t(b, copp, 1) + t(b, copp, 2)
        + t(b, copp, 3) + t(b, copp, 4) + t(b, copp, 5) + t(b, copp, 6) + t(b, copp, 7));
}

/// Mirroring the board and swapping the colors negates the
/// White-minus-Black score; since the side to move flips too, the
/// side-relative evaluation is unchanged.
pub proof fn lemma_eval_mirror(b: Board, bm: Board)
    requires
        boards_mirrored(b, bm),
    ensures
        crate::eval::spec_color_score(bm, Color::White) - crate::eval::spec_color_score(
            bm,
            Color::Black,
        ) == -(crate::eval::spec_color_score(b, Color::White) - crate::eval::spec_color_score(
            b,
            Color::Black,
        )),
        crate::eval::spec_eval(bm) == crate::eval::spec_eval(b),
{
    lemma_color_score_mirror(b, bm, Color::White);
    lemma_color_score_mirror(b, bm, Color::Black);
}

/// The segment `seg` sits in `s` at position `i`.
pub open spec fn seg_at(s: Seq<u8>, i: int, seg: Seq<u8>) -> bool {
    &&& 0 <= i
    &&& i + seg.len() <= s.len()
    &&& forall|k: int| 0 <= k < seg.len() ==> s[i + k] == seg[k]
}

/// What the placement printer still has to emit from a given state.
pub open spec fn remaining_placement(b: Board, rank: int, file: int, pending: int) -> Seq<u8> {
    crate::fen::spec_rank_bytes(b, rank, file, pending) + (if rank > 0 {
        seq![crate::fen::SLASH] + crate::fen::spec_placement_bytes(b, rank - 1)
    } else {
        Seq::<u8>::empty()
    })
}

/// The accumulator holds exactly the pieces of `b` on the squares the
/// scan has passed: every rank above `rank`, and this rank's files
/// below `pfile`.
pub open spec fn scan_inv(acc: Board, b: Board, rank: int, pfile: int) -> bool {
    forall|p: Piece, t: u64| t < 64 ==> (#[trigger] bit(acc.spec_bb(p), t) == (bit(
        b.spec_bb(p),
        t,
    ) && (crate::square::spec_rank(t as u8) > rank || (crate::square::spec_rank(t as u8) == rank
        && crate::square::spec_file(t as u8) < pfile))))
}

/// A FEN letter names the piece it was printed for.
proof fn lemma_letter_piece_round(p: Piece)
    ensures
        crate::fen::spec_letter_piece(crate::fen::spec_piece_letter(p)) == Some(p),
        crate::fen::spec_piece_letter(p) != crate::fen::SPACE,
        crate::fen::spec_piece_letter(p) != crate::fen::SLASH,
        !(crate::fen::DIGIT_ZERO + 1 <= crate::fen::spec_piece_letter(p) <= crate::fen::DIGIT_ZERO
            + 8),
{
}

/// Parsing what the placement printer emits rebuilds the scanned
/// board, piece board by piece board.
#[verifier::rlimit(100)]
proof fn lemma_parse_printed_placement(
    s: Seq<u8>,
    i: int,
    b: Board,
    rank: int,
    file: int,
    pending: int,
    acc: Board,
)
    requires
        boards_disjoint(b),
        0 <= rank < 8,
        0 <= file <= 8,
        0 <= pending <= file,
        seg_at(s, i, remaining_placement(b, rank, file, pending)),
        i + remaining_placement(b, rank, file, pending).len() == s.len() || s[i
            + remaining_placement(b, rank, file, pending).len()] == crate::fen::SPACE,
        scan_inv(acc, b, rank, file - pending),
        forall|f: int| file - pending <= f < file ==> (#[trigger] b.spec_piece_at(
            ((rank * 8 + f) as u8),
        )).is_none(),
    ensures
        ({
            let end = i + remaining_placement(b, rank, file, pending).len();
            let r = crate::fen::spec_parse_placement(s, i, rank, file - pending, acc);
            &&& r is Ok
            &&& r->Ok_0.1 == end
            &&& forall|p: Piece| #[trigger] r->Ok_0.0.spec_bb(p) == b.spec_bb(p)
        }),
    decreases rank, 8 - file,
{
    let seg = remaining_placement(b, rank, file, pending);
    let pf = file - pending;
    if file < 8 {
        let sq = (rank * 8 + file) as u8;
        match b.spec_piece_at(sq) {
            None => {
                assert(remaining_placement(b, rank, file + 1, pending + 1) == seg);
                lemma_parse_printed_placement(s, i, b, rank, file + 1, pending + 1, acc);
            },
            Some(p) => {
                lemma_letter_piece_round(p);
                crate::movegen::lemma_piece_at_some(b, sq, p);
                let letter = crate::fen::spec_piece_letter(p);
                let rest = crate::fen::spec_rank_bytes(b, rank, file + 1, 0);
                let tailseq: Seq<u8> = if rank > 0 {
                    seq![crate::fen::SLASH] + crate::fen::spec_placement_bytes(b, rank - 1)
                } else {
                    Seq::<u8>::empty()
                };
                let pre: Seq<u8> = if pending > 0 {
                    seq![(crate::fen::DIGIT_ZERO + pending) as u8]
                } else {
                    Seq::<u8>::empty()
                };
                assert(crate::fen::spec_rank_bytes(b, rank, file, pending) == pre + seq![letter]
                    + rest);
                assert(seg == (pre + seq![letter] + rest) + tailseq);
                let skip = pre.len() + 1;
                let acc2 = acc.spec_with_bb(p, set_bit(acc.spec_bb(p), sq as u64));
                // the parser reads the flush digit, if any, then the letter
                if pending > 0 {
                    assert(s[i] == (crate::fen::DIGIT_ZERO + pending) as u8) by {
                        assert(seg[0] == pre[0]);
                    }
                    assert(s[i + 1] == letter) by {
                        assert(seg[1] == (pre + seq![letter] + rest)[1]);
                    }
                    assert(crate::fen::spec_parse_placement(s, i, rank, pf, acc)
                        == crate::fen::spec_parse_placement(s, i + 1, rank, file, acc));
                    assert(crate::fen::spec_parse_placement(s, i + 1, rank, file, acc)
                        == crate::fen::spec_parse_placement(s, i + 2, rank, file + 1, acc2));
                } else {
                    assert(s[i] == letter) by {
                        assert(seg[0] == (pre + seq![letter] + rest)[0]);
                    }
                    assert(crate::fen::spec_parse_placement(s, i, rank, pf, acc)
                        == crate::fen::spec_parse_placement(s, i + 1, rank, file + 1, acc2));
                }
                // the new accumulator extends the scan past the window and sq
                assert(scan_inv(acc2, b, rank, file + 1)) by {
                    assert forall|q: Piece, t: u64| t < 64 implies (#[trigger] bit(
                        acc2.spec_bb(q),
                        t,
                    ) == (bit(b.spec_bb(q), t) && (crate::square::spec_rank(t as u8) > rank || (
                    crate::square::spec_rank(t as u8) == rank && crate::square::spec_file(t as u8)
                        < file + 1)))) by {
                        lemma_with_bb_frame(acc, p, set_bit(acc.spec_bb(p), sq as u64), q);
                        assert(t == 8 * (t as u8 / 8) + (t as u8 % 8));
                        if q == p {
                            lemma_bit_set(acc.spec_bb(p), sq as u64, t);
                        }
                        if t == sq as u64 {
                            if q != p {
                                lemma_disjoint_bit(b.spec_bb(p), b.spec_bb(q), sq as u64);
                            }
                        } else if crate::square::spec_rank(t as u8) == rank && pf
                            <= crate::square::spec_file(t as u8) < file {
                            let f = crate::square::spec_file(t as u8) as int;
                            assert(t == (rank * 8 + f));
                            assert(b.spec_piece_at(((rank * 8 + f) as u8)).is_none());
                            lemma_piece_at_none(b, t as u8);
                        }
                    }
                }
                let seg2 = remaining_placement(b, rank, file + 1, 0);
                assert(seg2 == rest + tailseq);
                assert(seg_at(s, i + skip, seg2)) by {
                    assert forall|k: int| 0 <= k < seg2.len() implies s[i + skip + k] == seg2[k] by {
                        assert(seg[skip + k] == seg2[k]);
                    }
                }
                assert(i + skip + seg2.len() == i + seg.len());
                lemma_parse_printed_placement(s, i + skip, b, rank, file + 1, 0, acc2);
            },
        }
    } else {
        // the rank is complete: flush the run, then `/` or the end
        let pre: Seq<u8> = if pending > 0 {
            seq![(crate::fen::DIGIT_ZERO + pending) as u8]
        } else {
            Seq::<u8>::empty()
        };
        let tailseq: Seq<u8> = if rank > 0 {
            seq![crate::fen::SLASH] + crate::fen::spec_placement_bytes(b, rank - 1)
        } else {
            Seq::<u8>::empty()
        };
        assert(crate::fen::spec_rank_bytes(b, rank, file, pending) == pre);
        assert(seg == pre + tailseq);
        let j = i + pre.len();
        if pending > 0 {
            assert(s[i] == (crate::fen::DIGIT_ZERO + pending) as u8) by {
                assert(seg[0] == pre[0]);
            }
            assert(crate::fen::spec_parse_placement(s, i, rank, pf, acc)
                == crate::fen::spec_parse_placement(s, j, rank, 8, acc));
        }
        // the tail of the rank is empty, so passing it scans nothing
        assert(scan_inv(acc, b, rank, 8)) by {
            assert forall|q: Piece, t: u64| t < 64 implies (#[trigger] bit(acc.spec_bb(q), t) == (
            bit(b.spec_bb(q), t) && (crate::square::spec_rank(t as u8) > rank || (
            crate::square::spec_rank(t as u8) == rank && crate::square::spec_file(t as u8)
                < 8)))) by {
                assert(bit(acc.spec_bb(q), t) == (bit(b.spec_bb(q), t) && (
                crate::square::spec_rank(t as u8) > rank || (crate::square::spec_rank(t as u8)
                    == rank && crate::square::spec_file(t as u8) < pf))));
                if crate::square::spec_rank(t as u8) == rank && pf <= crate::square::spec_file(
                    t as u8,
                ) < 8 {
                    let f = crate::square::spec_file(t as u8) as int;
                    assert(t == (rank * 8 + f));
                    assert(b.spec_piece_at(((rank * 8 + f) as u8)).is_none());
                    lemma_piece_at_none(b, t as u8);
                }
            }
        }
        if rank > 0 {
            assert(s[j] == crate::fen::SLASH) by {
                assert(seg[pre.len() as int] == tailseq[0]);
            }
            assert(crate::fen::spec_parse_placement(s, j, rank, 8, acc)
                == crate::fen::spec_parse_placement(s, j + 1, rank - 1, 0, acc));
            assert(scan_inv(acc, b, rank - 1, 0)) by {
                assert forall|q: Piece, t: u64| t < 64 implies (#[trigger] bit(
                    acc.spec_bb(q),
                    t,
                ) == (bit(b.spec_bb(q), t) && (crate::square::spec_rank(t as u8) > rank - 1 || (
                crate::square::spec_rank(t as u8) == rank - 1 && crate::square::spec_file(t as u8)
                    < 0)))) by {
                    assert(bit(acc.spec_bb(q), t) == (bit(b.spec_bb(q), t) && (
                    crate::square::spec_rank(t as u8) > rank || (crate::square::spec_rank(t as u8)
                        == rank && crate::square::spec_file(t as u8) < 8))));
                    assert(crate::square::spec_file(t as u8) < 8);
                }
            }
            let seg2 = remaining_placement(b, rank - 1, 0, 0);
            assert(seg2 == crate::fen::spec_placement_bytes(b, rank - 1));
            assert(seg_at(s, j + 1, seg2)) by {
                assert forall|k: int| 0 <= k < seg2.len() implies s[j + 1 + k] == seg2[k] by {
                    assert(seg[pre.len() + 1 + k] == tailseq[1 + k]);
                }
            }
            assert(j + 1 + seg2.len() == i + seg.len());
            lemma_parse_printed_placement(s, j + 1, b, rank - 1, 0, 0, acc);
        } else {
            // the whole board has been scanned
            assert(j == i + seg.len());
            assert(j == s.len() || s[j] == crate::fen::SPACE);
            assert(crate::fen::spec_parse_placement(s, j, 0, 8, acc) == Ok::<(Board, int), int>(
                (acc, j),
            ));
            assert forall|p: Piece| #[trigger] acc.spec_bb(p) == b.spec_bb(p) by {
                assert forall|t: u64| t < 64 implies bit(acc.spec_bb(p), t) == bit(
                    b.spec_bb(p),
                    t,
                ) by {
                    assert(t == 8 * (t as u8 / 8) + (t as u8 % 8));
                    assert(crate::square::spec_rank(t as u8) > 0 || (crate::square::spec_rank(
                        t as u8,
                    ) == 0 && crate::square::spec_file(t as u8) < 8));
                }
                crate::bits::lemma_bb_ext(acc.spec_bb(p), b.spec_bb(p));
            }
        }
    }
}

/// How the castling accumulator grows over the four right bits.
proof fn lemma_castle_acc(r: u8)
    by (bit_vector)
    requires
        r < 16,
    ensures
        r & 1 == 0 || r & 1 == 1,
        0u8 | 1 == 1,
        r & 1 != 0 ==> 0u8 | 1 == r & 1,
        r & 2 != 0 ==> (r & 1) | 2 == r & 3,
        r & 2 == 0 ==> r & 3 == r & 1,
        r & 4 != 0 ==> (r & 3) | 4 == r & 7,
        r & 4 == 0 ==> r & 7 == r & 3,
        r & 8 != 0 ==> (r & 7) | 8 == r & 15,
        r & 8 == 0 ==> r & 15 == r & 7,
        r & 15 == r,
        (r & 3 != 0) == (r & 1 != 0 || r & 2 != 0),
        (r & 7 != 0) == (r & 3 != 0 || r & 4 != 0),
        (r & 15 != 0) == (r & 7 != 0 || r & 8 != 0),
{
}

/// Parsing the printed castling field gives the rights back.
proof fn lemma_parse_printed_castling(s: Seq<u8>, i: int, r: u8)
    requires
        r < 16,
        seg_at(s, i, crate::fen::spec_castling_bytes(r)),
        i + crate::fen::spec_castling_bytes(r).len() == s.len() || s[i
            + crate::fen::spec_castling_bytes(r).len()] == crate::fen::SPACE,
    ensures
        crate::fen::spec_parse_castling(s, i, 0, false) == Ok::<(u8, int), int>(
            (r, i + crate::fen::spec_castling_bytes(r).len()),
        ),
{
    let cb = crate::fen::spec_castling_bytes(r);
    lemma_castle_acc(r);
    if r == 0 {
        assert(s[i] == crate::fen::DASH) by {
            assert(cb[0] == crate::fen::DASH);
        }
    } else {
        let s1: Seq<u8> = if r & 1 != 0 {
            seq![75u8]
        } else {
            Seq::<u8>::empty()
        };
        let s2: Seq<u8> = if r & 2 != 0 {
            seq![81u8]
        } else {
            Seq::<u8>::empty()
        };
        let s3: Seq<u8> = if r & 4 != 0 {
            seq![107u8]
        } else {
            Seq::<u8>::empty()
        };
        let s4: Seq<u8> = if r & 8 != 0 {
            seq![113u8]
        } else {
            Seq::<u8>::empty()
        };
        assert(cb == s1 + s2 + s3 + s4);
        let i1 = i + s1.len();
        let i2 = i1 + s2.len();
        let i3 = i2 + s3.len();
        let i4 = i3 + s4.len();
        assert(i4 == i + cb.len());
        if r & 1 != 0 {
            assert(s[i] == 75) by {
                assert(cb[0] == s1[0]);
            }
            assert(crate::fen::spec_parse_castling(s, i, 0, false)
                == crate::fen::spec_parse_castling(s, i1, r & 1, true));
        }
        assert(crate::fen::spec_parse_castling(s, i, 0, false)
            == crate::fen::spec_parse_castling(s, i1, r & 1, r & 1 != 0));
        if r & 2 != 0 {
            assert(s[i1] == 81) by {
                assert(cb[i1 - i] == s2[0]);
            }
            assert(crate::fen::spec_parse_castling(s, i1, r & 1, r & 1 != 0)
                == crate::fen::spec_parse_castling(s, i2, (r & 1) | 2, true));
        }
        assert(crate::fen::spec_parse_castling(s, i1, r & 1, r & 1 != 0)
            == crate::fen::spec_parse_castling(s, i2, r & 3, r & 3 != 0));
        if r & 4 != 0 {
            assert(s[i2] == 107) by {
                assert(cb[i2 - i] == s3[0]);
            }
            assert(crate::fen::spec_parse_castling(s, i2, r & 3, r & 3 != 0)
                == crate::fen::spec_parse_castling(s, i3, (r & 3) | 4, true));
        }
        assert(crate::fen::spec_parse_castling(s, i2, r & 3, r & 3 != 0)
            == crate::fen::spec_parse_castling(s, i3, r & 7, r & 7 != 0));
        if r & 8 != 0 {
            assert(s[i3] == 113) by {
                assert(cb[i3 - i] == s4[0]);
            }
            assert(crate::fen::spec_parse_castling(s, i3, r & 7, r & 7 != 0)
                == crate::fen::spec_parse_castling(s, i4, (r & 7) | 8, true));
        }
        assert(crate::fen::spec_parse_castling(s, i3, r & 7, r & 7 != 0)
            == crate::fen::spec_parse_castling(s, i4, r, r != 0));
        assert(crate::fen::spec_parse_castling(s, i4, r, true) == Ok::<(u8, int), int>((r, i4)));
    }
}

/// The boards a printed FEN can faithfully carry: disjoint boards,
/// one king each, four-bit rights, an en-passant target on the rank
/// the side to move could capture on, and a check flag that matches
/// the position.
pub open spec fn fen_faithful(b: Board) -> bool {
    &&& boards_disjoint(b)
    &&& single_bit(b.w_king)
    &&& single_bit(b.b_king)
    &&& b.can_castle < 16
    &&& (b.en_passant matches Some(t) ==> t < 64 && ((b.side_to_move == Color::White
        && crate::square::spec_rank(t) == 5) || (b.side_to_move == Color::Black
        && crate::square::spec_rank(t) == 2)))
    &&& b.in_check == attacks::spec_in_check(b, b.side_to_move)
}

/// Printing a faithful position and parsing the print yields the
/// position again: the FEN round trip is lossless for the four fields
/// the board stores.
#[verifier::rlimit(100)]
pub proof fn lemma_fen_round_trip(b: Board)
    requires
        fen_faithful(b),
    ensures
        crate::fen::spec_from_fen(crate::fen::spec_to_fen(b)) == Ok::<Board, int>(b),
{
    let s = crate::fen::spec_to_fen(b);
    let pl = crate::fen::spec_placement_bytes(b, 7);
    let side = crate::fen::spec_side_byte(b.side_to_move);
    let cb = crate::fen::spec_castling_bytes(b.can_castle);
    let epb = crate::fen::spec_ep_bytes(b.en_passant);
    let head = pl + seq![crate::fen::SPACE, side, crate::fen::SPACE];
    let tail = seq![
        crate::fen::SPACE,
        crate::fen::DIGIT_ZERO,
        crate::fen::SPACE,
        (crate::fen::DIGIT_ZERO + 1) as u8,
    ];
    assert(s == head + cb + seq![crate::fen::SPACE] + epb + tail);
    let i1 = pl.len() as int;
    let i3 = i1 + 3 + cb.len() as int;
    let i4 = i3 + 1;
    // the placement segment parses back to the same piece boards
    assert(seg_at(s, 0, remaining_placement(b, 7, 0, 0))) by {
        assert(remaining_placement(b, 7, 0, 0) == pl);
        assert forall|k: int| 0 <= k < pl.len() implies s[k] == pl[k] by {
            assert(head[k] == pl[k]);
        }
    }
    assert(s[i1] == crate::fen::SPACE) by {
        assert(head[i1] == crate::fen::SPACE);
    }
    assert(scan_inv(crate::fen::spec_empty_board(), b, 7, 0)) by {
        assert forall|p: Piece, t: u64| t < 64 implies (#[trigger] bit(
            crate::fen::spec_empty_board().spec_bb(p),
            t,
        ) == (bit(b.spec_bb(p), t) && (crate::square::spec_rank(t as u8) > 7 || (
        crate::square::spec_rank(t as u8) == 7 && crate::square::spec_file(t as u8) < 0)))) by {
            assert(crate::fen::spec_empty_board().spec_bb(p) == 0);
            crate::bits::lemma_bit_empty(t);
            assert(crate::square::spec_rank(t as u8) <= 7);
        }
    }
    lemma_parse_printed_placement(s, 0, b, 7, 0, 0, crate::fen::spec_empty_board());
    let b1 = crate::fen::spec_parse_placement(
        s,
        0,
        7,
        0,
        crate::fen::spec_empty_board(),
    )->Ok_0.0;
    assert(b1.w_king == b.w_king && b1.b_king == b.b_king) by {
        assert(b1.spec_bb(Piece { kind: PieceKind::King, color: Color::White }) == b.spec_bb(
            Piece { kind: PieceKind::King, color: Color::White },
        ));
        assert(b1.spec_bb(Piece { kind: PieceKind::King, color: Color::Black }) == b.spec_bb(
            Piece { kind: PieceKind::King, color: Color::Black },
        ));
    }
    // side to move
    assert(s[i1 + 1] == side) by {
        assert(head[i1 + 1] == side);
    }
    assert(s[i1 + 2] == crate::fen::SPACE) by {
        assert(head[i1 + 2] == crate::fen::SPACE);
    }
    // castling
    assert(seg_at(s, i1 + 3, cb)) by {
        assert forall|k: int| 0 <= k < cb.len() implies s[i1 + 3 + k] == cb[k] by {
            assert((head + cb)[i1 + 3 + k] == cb[k]);
        }
    }
    assert(s[i3] == crate::fen::SPACE) by {
        assert((head + cb + seq![crate::fen::SPACE])[i3] == crate::fen::SPACE);
    }
    lemma_parse_printed_castling(s, i1 + 3, b.can_castle);
    // en passant
    match b.en_passant {
        None => {
            assert(s[i4] == crate::fen::DASH) by {
                assert(epb[0] == crate::fen::DASH);
                assert((head + cb + seq![crate::fen::SPACE] + epb)[i4] == epb[0]);
            }
        },
        Some(t) => {
            assert(epb == crate::square::spec_square_bytes(t));
            assert(s[i4] == epb[0] && s[i4 + 1] == epb[1]) by {
                assert((head + cb + seq![crate::fen::SPACE] + epb)[i4] == epb[0]);
                assert((head + cb + seq![crate::fen::SPACE] + epb)[i4 + 1] == epb[1]);
            }
            crate::square::lemma_square_bytes_round_trip(t);
            assert(epb[0] != crate::fen::DASH);
        },
    }
    // the reassembled board is the original
    let stm = b.side_to_move;
    let res = crate::fen::spec_assemble(b1, stm, b.can_castle, b.en_passant);
    assert(b1.w_pawn == b.w_pawn && b1.w_knight == b.w_knight && b1.w_bishop == b.w_bishop
        && b1.w_rook == b.w_rook && b1.w_queen == b.w_queen && b1.b_pawn == b.b_pawn
        && b1.b_knight == b.b_knight && b1.b_bishop == b.b_bishop && b1.b_rook == b.b_rook
        && b1.b_queen == b.b_queen) by {
        assert(b1.spec_bb(Piece { kind: PieceKind::Pawn, color: Color::White }) == b.spec_bb(
            Piece { kind: PieceKind::Pawn, color: Color::White },
        ));
        assert(b1.spec_bb(Piece { kind: PieceKind::Knight, color: Color::White }) == b.spec_bb(
            Piece { kind: PieceKind::Knight, color: Color::White },
        ));
        assert(b1.spec_bb(Piece { kind: PieceKind::Bishop, color: Color::White }) == b.spec_bb(
            Piece { kind: PieceKind::Bishop, color: Color::White },
        ));
        assert(b1.spec_bb(Piece { kind: PieceKind::Rook, color: Color::White }) == b.spec_bb(
            Piece { kind: PieceKind::Rook, color: Color::White },
        ));
        assert(b1.spec_bb(Piece { kind: PieceKind::Queen, color: Color::White }) == b.spec_bb(
            Piece { kind: PieceKind::Queen, color: Color::White },
        ));
        assert(b1.spec_bb(Piece { kind: PieceKind::Pawn, color: Color::Black }) == b.spec_bb(
            Piece { kind: PieceKind::Pawn, color: Color::Black },
        ));
        assert(b1.spec_bb(Piece { kind: PieceKind::Knight, color: Color::Black }) == b.spec_bb(
            Piece { kind: PieceKind::Knight, color: Color::Black },
        ));
        assert(b1.spec_bb(Piece { kind: PieceKind::Bishop, color: Color::Black }) == b.spec_bb(
            Piece { kind: PieceKind::Bishop, color: Color::Black },
        ));
        assert(b1.spec_bb(Piece { kind: PieceKind::Rook, color: Color::Black }) == b.spec_bb(
            Piece { kind: PieceKind::Rook, color: Color::Black },
        ));
        assert(b1.spec_bb(Piece { kind: PieceKind::Queen, color: Color::Black }) == b.spec_bb(
            Piece { kind: PieceKind::Queen, color: Color::Black },
        ));
    }
    let b5 = Board { side_to_move: stm, can_castle: b.can_castle, en_passant: b.en_passant, ..b1 };
    assert(attacks::same_pieces(b5, b)) by {
        assert forall|p: Piece| b5.spec_bb(p) == #[trigger] b.spec_bb(p) by {
            assert(b5.spec_bb(p) == b1.spec_bb(p));
        }
    }
    attacks::lemma_in_check_same(b5, b, stm);
    assert(res == b);
}

/// The union of four right bits stays within four bits.
proof fn lemma_or_right_bit(a: u8, b2: u8)
    by (bit_vector)
    requires
        a < 16,
        b2 == 1 || b2 == 2 || b2 == 4 || b2 == 8,
    ensures
        (a | b2) < 16,
{
}

/// The castling parser only ever produces four-bit rights.
proof fn lemma_parse_castling_bounded(s: Seq<u8>, i: int, acc: u8, any: bool)
    requires
        acc < 16,
    ensures
        crate::fen::spec_parse_castling(s, i, acc, any) matches Ok(r) ==> r.0 < 16,
    decreases s.len() - i,
{
    if 0 <= i < s.len() && s[i] != crate::fen::SPACE && s[i] != crate::fen::DASH {
        if s[i] == 75 {
            lemma_or_right_bit(acc, 1);
            lemma_parse_castling_bounded(s, i + 1, acc | 1, true);
        } else if s[i] == 81 {
            lemma_or_right_bit(acc, 2);
            lemma_parse_castling_bounded(s, i + 1, acc | 2, true);
        } else if s[i] == 107 {
            lemma_or_right_bit(acc, 4);
            lemma_parse_castling_bounded(s, i + 1, acc | 4, true);
        } else if s[i] == 113 {
            lemma_or_right_bit(acc, 8);
            lemma_parse_castling_bounded(s, i + 1, acc | 8, true);
        }
    }
}

/// The accumulator's bits lie inside the already-scanned region.
spec fn scan_confined(acc: Board, rank: int, pfile: int) -> bool {
    forall|p: Piece, t: u64| t < 64 && #[trigger] bit(acc.spec_bb(p), t) ==> (
    crate::square::spec_rank(t as u8) > rank || (crate::square::spec_rank(t as u8) == rank
        && crate::square::spec_file(t as u8) < pfile))
}

/// Whatever the placement parser accepts has pairwise-disjoint
/// boards: each square is filled at most once.
proof fn lemma_parse_placement_disjoint(s: Seq<u8>, i: int, rank: int, pfile: int, acc: Board)
    requires
        0 <= rank < 8,
        0 <= pfile <= 8,
        boards_disjoint(acc),
        scan_confined(acc, rank, pfile),
    ensures
        crate::fen::spec_parse_placement(s, i, rank, pfile, acc) matches Ok(r)
            ==> boards_disjoint(r.0),
    decreases s.len() - i,
{
    if i < 0 || i >= s.len() || s[i] == crate::fen::SPACE {
    } else if s[i] == crate::fen::SLASH {
        if pfile == 8 && rank > 0 {
            assert(scan_confined(acc, rank - 1, 0)) by {
                assert forall|p: Piece, t: u64| t < 64 && #[trigger] bit(
                    acc.spec_bb(p),
                    t,
                ) implies (crate::square::spec_rank(t as u8) > rank - 1 || (
                crate::square::spec_rank(t as u8) == rank - 1 && crate::square::spec_file(t as u8)
                    < 0)) by {
                    assert(crate::square::spec_rank(t as u8) > rank || (crate::square::spec_rank(
                        t as u8,
                    ) == rank && crate::square::spec_file(t as u8) < 8));
                }
            }
            lemma_parse_placement_disjoint(s, i + 1, rank - 1, 0, acc);
        }
    } else if crate::fen::DIGIT_ZERO + 1 <= s[i] <= crate::fen::DIGIT_ZERO + 8 {
        let n = s[i] - crate::fen::DIGIT_ZERO;
        if pfile + n <= 8 {
            assert(scan_confined(acc, rank, pfile + n));
            lemma_parse_placement_disjoint(s, i + 1, rank, pfile + n, acc);
        }
    } else {
        match crate::fen::spec_letter_piece(s[i]) {
            Some(p) => {
                if pfile < 8 {
                    let sq = (rank * 8 + pfile) as u64;
                    assert(no_bit_anywhere(acc, sq)) by {
                        assert forall|q: Piece| !bit(#[trigger] acc.spec_bb(q), sq) by {
                            if bit(acc.spec_bb(q), sq) {
                                assert(crate::square::spec_rank(sq as u8) == rank
                                    && crate::square::spec_file(sq as u8) == pfile);
                            }
                        }
                    }
                    lemma_set_step(acc, p, sq);
                    let acc2 = acc.spec_with_bb(p, set_bit(acc.spec_bb(p), sq));
                    assert(scan_confined(acc2, rank, pfile + 1)) by {
                        assert forall|q: Piece, t: u64| t < 64 && #[trigger] bit(
                            acc2.spec_bb(q),
                            t,
                        ) implies (crate::square::spec_rank(t as u8) > rank || (
                        crate::square::spec_rank(t as u8) == rank && crate::square::spec_file(
                            t as u8,
                        ) < pfile + 1)) by {
                            lemma_with_bb_frame(acc, p, set_bit(acc.spec_bb(p), sq), q);
                            if q == p {
                                lemma_bit_set(acc.spec_bb(p), sq, t);
                                if t == sq {
                                    assert(crate::square::spec_rank(t as u8) == rank
                                        && crate::square::spec_file(t as u8) == pfile);
                                }
                            }
                        }
                    }
                    lemma_parse_placement_disjoint(s, i + 1, rank, pfile + 1, acc2);
                }
            },
            None => {},
        }
    }
}

/// Every position the FEN parser accepts is well-formed and prints
/// faithfully: disjoint boards, one king per side, four-bit rights, a
/// valid en-passant target, and a check flag matching the position.
#[verifier::rlimit(100)]
pub proof fn lemma_from_fen_well_formed(s: Seq<u8>)
    ensures
        crate::fen::spec_from_fen(s) matches Ok(b) ==> wf_board(b) && fen_faithful(b),
{
    if crate::fen::spec_from_fen(s) is Ok {
        let b = crate::fen::spec_from_fen(s)->Ok_0;
        assert(scan_confined(crate::fen::spec_empty_board(), 7, 0)) by {
            assert forall|p: Piece, t: u64| t < 64 && #[trigger] bit(
                crate::fen::spec_empty_board().spec_bb(p),
                t,
            ) implies false by {
                assert(crate::fen::spec_empty_board().spec_bb(p) == 0);
                crate::bits::lemma_bit_empty(t);
            }
        }
        assert(boards_disjoint(crate::fen::spec_empty_board())) by {
            assert forall|p1: Piece, p2: Piece| p1 != p2 implies #[trigger] crate::fen::spec_empty_board().spec_bb(
                p1,
            ) & #[trigger] crate::fen::spec_empty_board().spec_bb(p2) == 0 by {
                assert(crate::fen::spec_empty_board().spec_bb(p1) == 0);
                assert(0u64 & crate::fen::spec_empty_board().spec_bb(p2) == 0) by (bit_vector);
            }
        }
        lemma_parse_placement_disjoint(s, 0, 7, 0, crate::fen::spec_empty_board());
        lemma_parse_castling_bounded(
            s,
            crate::fen::spec_parse_placement(s, 0, 7, 0, crate::fen::spec_empty_board())->Ok_0.1
                + 3,
            0,
            false,
        );
        let b1 = crate::fen::spec_parse_placement(
            s,
            0,
            7,
            0,
            crate::fen::spec_empty_board(),
        )->Ok_0.0;
        // the assembled board keeps the parsed piece boards
        assert forall|p: Piece| #[trigger] b.spec_bb(p) == b1.spec_bb(p) by {}
        assert(boards_disjoint(b)) by {
            assert forall|p1: Piece, p2: Piece| p1 != p2 implies #[trigger] b.spec_bb(p1)
                & #[trigger] b.spec_bb(p2) == 0 by {
                assert(b1.spec_bb(p1) & b1.spec_bb(p2) == 0);
            }
        }
        assert(b.w_king == b1.w_king && b.b_king == b1.b_king);
        // the check flag was computed for the board being assembled,
        // which differs from the result in that flag alone
        let inner = Board { in_check: b1.in_check, ..b };
        assert(b.in_check == attacks::spec_in_check(inner, b.side_to_move));
        assert(attacks::same_pieces(inner, b)) by {
            assert forall|p: Piece| inner.spec_bb(p) == #[trigger] b.spec_bb(p) by {}
        }
        attacks::lemma_in_check_same(inner, b, b.side_to_move);
    }
}

/// Two positions agreeing on the piece boards, the side to move, the
/// castling rights and the en-passant target are the same position:
/// the cached check flag is determined by those fields.
pub proof fn lemma_board_equality_by_fields(a: Board, b: Board)
    requires
        a.in_check == attacks::spec_in_check(a, a.side_to_move),
        b.in_check == attacks::spec_in_check(b, b.side_to_move),
        a.w_pawn == b.w_pawn,
        a.w_knight == b.w_knight,
        a.w_bishop == b.w_bishop,
        a.w_rook == b.w_rook,
        a.w_queen == b.w_queen,
        a.w_king == b.w_king,
        a.b_pawn == b.b_pawn,
        a.b_knight == b.b_knight,
        a.b_bishop == b.b_bishop,
        a.b_rook == b.b_rook,
        a.b_queen == b.b_queen,
        a.b_king == b.b_king,
        a.side_to_move == b.side_to_move,
        a.can_castle == b.can_castle,
        a.en_passant == b.en_passant,
    ensures
        a == b,
{
    assert(attacks::same_pieces(a, b)) by {
        assert forall|p: Piece| a.spec_bb(p) == #[trigger] b.spec_bb(p) by {}
    }
    attacks::lemma_in_check_same(a, b, a.side_to_move);
}

} // verus!
