//! Move generation: pseudo-legal moves per piece, in a fixed order,
//! then the legality filter that discards moves leaving the own king
//! attacked.

use vstd::prelude::*;
use crate::attacks::{self, spec_offset, offset};
use crate::board::{self, Board, move_ok, spec_make_move};
use crate::moves::{Move, SpecialMove};
use crate::piece::{Color, Piece, PieceKind};

verus! {

/// One or four moves for a pawn arriving on `t`: a promotion expands
/// into the four promotion kinds, knight through queen.
pub open spec fn spec_pawn_target_moves(sq: u8, t: u8, us: Color, capture: bool) -> Seq<Move> {
    let p = Piece { kind: PieceKind::Pawn, color: us };
    if (us == Color::White && t >= 56) || (us == Color::Black && t < 8) {
        seq![
            Move { from: sq, to: t, piece: p, capture, special: Some(SpecialMove::Promotion(PieceKind::Knight)) },
            Move { from: sq, to: t, piece: p, capture, special: Some(SpecialMove::Promotion(PieceKind::Bishop)) },
            Move { from: sq, to: t, piece: p, capture, special: Some(SpecialMove::Promotion(PieceKind::Rook)) },
            Move { from: sq, to: t, piece: p, capture, special: Some(SpecialMove::Promotion(PieceKind::Queen)) },
        ]
    } else {
        seq![Move { from: sq, to: t, piece: p, capture, special: None }]
    }
}

/// A pawn's forward-step direction.
pub open spec fn spec_pawn_dr(us: Color) -> int {
    if us == Color::White {
        1
    } else {
        -1
    }
}

/// Single push, expanded for promotion.
pub open spec fn spec_pawn_push_moves(b: Board, sq: u8, us: Color) -> Seq<Move> {
    match spec_offset(sq, 0, spec_pawn_dr(us)) {
        Some(t) => if b.spec_piece_at(t).is_none() {
            spec_pawn_target_moves(sq, t, us, false)
        } else {
            Seq::empty()
        },
        None => Seq::empty(),
    }
}

/// Double push from the pawn's starting rank over two empty squares.
pub open spec fn spec_pawn_double_moves(b: Board, sq: u8, us: Color) -> Seq<Move> {
    let on_start = if us == Color::White {
        8 <= sq < 16
    } else {
        48 <= sq < 56
    };
    if on_start {
        match (spec_offset(sq, 0, spec_pawn_dr(us)), spec_offset(sq, 0, 2 * spec_pawn_dr(us))) {
            (Some(t1), Some(t2)) => if b.spec_piece_at(t1).is_none() && b.spec_piece_at(
                t2,
            ).is_none() {
                seq![
                    Move {
                        from: sq,
                        to: t2,
                        piece: Piece { kind: PieceKind::Pawn, color: us },
                        capture: false,
                        special: Some(SpecialMove::DoublePush),
                    },
                ]
            } else {
                Seq::empty()
            },
            _ => Seq::empty(),
        }
    } else {
        Seq::empty()
    }
}

/// Diagonal capture toward `df`, expanded for promotion.
pub open spec fn spec_pawn_capture_moves(b: Board, sq: u8, us: Color, df: int) -> Seq<Move> {
    match spec_offset(sq, df, spec_pawn_dr(us)) {
        Some(t) => match b.spec_piece_at(t) {
            Some(q) => if q.color != us {
                spec_pawn_target_moves(sq, t, us, true)
            } else {
                Seq::empty()
            },
            None => Seq::empty(),
        },
        None => Seq::empty(),
    }
}

/// En-passant capture toward `df`: the diagonal target is the
/// en-passant square, empty, with the captured pawn beside the mover.
pub open spec fn spec_pawn_ep_moves(b: Board, sq: u8, us: Color, df: int) -> Seq<Move> {
    match spec_offset(sq, df, spec_pawn_dr(us)) {
        Some(t) => if b.en_passant == Some(t) && b.spec_piece_at(t).is_none() && {
            let m = Move {
                from: sq,
                to: t,
                piece: Piece { kind: PieceKind::Pawn, color: us },
                capture: true,
                special: Some(SpecialMove::EnPassant),
            };
            crate::bits::bit(
                b.spec_bb(Piece { kind: PieceKind::Pawn, color: us.spec_opposite() }),
                board::spec_capture_square(m) as u64,
            )
        } {
            seq![
                Move {
                    from: sq,
                    to: t,
                    piece: Piece { kind: PieceKind::Pawn, color: us },
                    capture: true,
                    special: Some(SpecialMove::EnPassant),
                },
            ]
        } else {
            Seq::empty()
        },
        None => Seq::empty(),
    }
}

pub open spec fn spec_pawn_moves(b: Board, sq: u8, us: Color) -> Seq<Move> {
    spec_pawn_push_moves(b, sq, us) + spec_pawn_double_moves(b, sq, us) + spec_pawn_capture_moves(
        b,
        sq,
        us,
        -1,
    ) + spec_pawn_capture_moves(b, sq, us, 1) + spec_pawn_ep_moves(b, sq, us, -1)
        + spec_pawn_ep_moves(b, sq, us, 1)
}

/// A leaper's step: empty target gives a quiet move, an enemy gives a
/// capture, an own piece or the board's edge gives nothing.
pub open spec fn spec_step_moves(b: Board, sq: u8, p: Piece, df: int, dr: int) -> Seq<Move> {
    match spec_offset(sq, df, dr) {
        Some(t) => match b.spec_piece_at(t) {
            None => seq![Move { from: sq, to: t, piece: p, capture: false, special: None }],
            Some(q) => if q.color != p.color {
                seq![Move { from: sq, to: t, piece: p, capture: true, special: None }]
            } else {
                Seq::empty()
            },
        },
        None => Seq::empty(),
    }
}

pub open spec fn spec_knight_moves(b: Board, sq: u8, p: Piece) -> Seq<Move> {
    spec_step_moves(b, sq, p, -2, -1) + spec_step_moves(b, sq, p, -2, 1) + spec_step_moves(
        b,
        sq,
        p,
        -1,
        -2,
    ) + spec_step_moves(b, sq, p, -1, 2) + spec_step_moves(b, sq, p, 1, -2) + spec_step_moves(
        b,
        sq,
        p,
        1,
        2,
    ) + spec_step_moves(b, sq, p, 2, -1) + spec_step_moves(b, sq, p, 2, 1)
}

pub open spec fn spec_king_step_moves(b: Board, sq: u8, p: Piece) -> Seq<Move> {
    spec_step_moves(b, sq, p, -1, -1) + spec_step_moves(b, sq, p, -1, 0) + spec_step_moves(
        b,
        sq,
        p,
        -1,
        1,
    ) + spec_step_moves(b, sq, p, 0, -1) + spec_step_moves(b, sq, p, 0, 1) + spec_step_moves(
        b,
        sq,
        p,
        1,
        -1,
    ) + spec_step_moves(b, sq, p, 1, 0) + spec_step_moves(b, sq, p, 1, 1)
}

/// Sliding moves along one ray: quiet moves over empty squares, then
/// at most one capture where the ray meets the first piece.
pub open spec fn spec_ray_moves(
    b: Board,
    from: u8,
    cur: u8,
    p: Piece,
    df: int,
    dr: int,
    fuel: nat,
) -> Seq<Move>
    decreases fuel,
{
    if fuel == 0 {
        Seq::empty()
    } else {
        match spec_offset(cur, df, dr) {
            None => Seq::empty(),
            Some(t) => match b.spec_piece_at(t) {
                None => seq![Move { from, to: t, piece: p, capture: false, special: None }]
                    + spec_ray_moves(b, from, t, p, df, dr, (fuel - 1) as nat),
                Some(q) => if q.color != p.color {
                    seq![Move { from, to: t, piece: p, capture: true, special: None }]
                } else {
                    Seq::empty()
                },
            },
        }
    }
}

pub open spec fn spec_bishop_rays(b: Board, sq: u8, p: Piece) -> Seq<Move> {
    spec_ray_moves(b, sq, sq, p, -1, -1, 8) + spec_ray_moves(b, sq, sq, p, -1, 1, 8)
        + spec_ray_moves(b, sq, sq, p, 1, -1, 8) + spec_ray_moves(b, sq, sq, p, 1, 1, 8)
}

pub open spec fn spec_rook_rays(b: Board, sq: u8, p: Piece) -> Seq<Move> {
    spec_ray_moves(b, sq, sq, p, -1, 0, 8) + spec_ray_moves(b, sq, sq, p, 1, 0, 8)
        + spec_ray_moves(b, sq, sq, p, 0, -1, 8) + spec_ray_moves(b, sq, sq, p, 0, 1, 8)
}

/// Castling: the right survives, the squares between king and rook are
/// empty, the rook stands on its corner, and neither the king's square
/// nor any square it crosses is attacked.
pub open spec fn spec_castle_moves(b: Board, sq: u8, us: Color) -> Seq<Move> {
    let them = us.spec_opposite();
    let king = Piece { kind: PieceKind::King, color: us };
    if us == Color::White && sq == 4 {
        let ks: Seq<Move> = if b.can_castle & board::WHITE_KINGSIDE != 0 && b.spec_piece_at(
            5,
        ).is_none() && b.spec_piece_at(6).is_none() && crate::bits::bit(b.w_rook, 7)
            && !attacks::spec_square_attacked(b, 4, them) && !attacks::spec_square_attacked(
            b,
            5,
            them,
        ) && !attacks::spec_square_attacked(b, 6, them) {
            seq![
                Move { from: 4, to: 6, piece: king, capture: false, special: Some(SpecialMove::Castle) },
            ]
        } else {
            Seq::empty()
        };
        let qs: Seq<Move> = if b.can_castle & board::WHITE_QUEENSIDE != 0 && b.spec_piece_at(
            3,
        ).is_none() && b.spec_piece_at(2).is_none() && b.spec_piece_at(1).is_none()
            && crate::bits::bit(b.w_rook, 0) && !attacks::spec_square_attacked(b, 4, them)
            && !attacks::spec_square_attacked(b, 3, them) && !attacks::spec_square_attacked(
            b,
            2,
            them,
        ) {
            seq![
                Move { from: 4, to: 2, piece: king, capture: false, special: Some(SpecialMove::Castle) },
            ]
        } else {
            Seq::empty()
        };
        ks + qs
    } else if us == Color::Black && sq == 60 {
        let ks: Seq<Move> = if b.can_castle & board::BLACK_KINGSIDE != 0 && b.spec_piece_at(
            61,
        ).is_none() && b.spec_piece_at(62).is_none() && crate::bits::bit(b.b_rook, 63)
            && !attacks::spec_square_attacked(b, 60, them) && !attacks::spec_square_attacked(
            b,
            61,
            them,
        ) && !attacks::spec_square_attacked(b, 62, them) {
            seq![
                Move { from: 60, to: 62, piece: king, capture: false, special: Some(SpecialMove::Castle) },
            ]
        } else {
            Seq::empty()
        };
        let qs: Seq<Move> = if b.can_castle & board::BLACK_QUEENSIDE != 0 && b.spec_piece_at(
            59,
        ).is_none() && b.spec_piece_at(58).is_none() && b.spec_piece_at(57).is_none()
            && crate::bits::bit(b.b_rook, 56) && !attacks::spec_square_attacked(b, 60, them)
            && !attacks::spec_square_attacked(b, 59, them) && !attacks::spec_square_attacked(
            b,
            58,
            them,
        ) {
            seq![
                Move { from: 60, to: 58, piece: king, capture: false, special: Some(SpecialMove::Castle) },
            ]
        } else {
            Seq::empty()
        };
        ks + qs
    } else {
        Seq::empty()
    }
}

/// All pseudo-legal moves of the piece standing on `sq`, when it
/// belongs to the side to move.
pub open spec fn spec_moves_from(b: Board, sq: u8) -> Seq<Move> {
    match b.spec_piece_at(sq) {
        Some(p) => if p.color == b.side_to_move {
            match p.kind {
                PieceKind::Pawn => spec_pawn_moves(b, sq, p.color),
                PieceKind::Knight => spec_knight_moves(b, sq, p),
                PieceKind::Bishop => spec_bishop_rays(b, sq, p),
                PieceKind::Rook => spec_rook_rays(b, sq, p),
                PieceKind::Queen => spec_bishop_rays(b, sq, p) + spec_rook_rays(b, sq, p),
                PieceKind::King => spec_king_step_moves(b, sq, p) + spec_castle_moves(
                    b,
                    sq,
                    p.color,
                ),
            }
        } else {
            Seq::empty()
        },
        None => Seq::empty(),
    }
}

/// Pseudo-legal moves of the pieces on squares below `n`, in square
/// order.
pub open spec fn spec_pseudo_upto(b: Board, n: int) -> Seq<Move>
    decreases n,
{
    if n <= 0 {
        Seq::empty()
    } else {
        spec_pseudo_upto(b, n - 1) + spec_moves_from(b, (n - 1) as u8)
    }
}

pub open spec fn spec_pseudo_moves(b: Board) -> Seq<Move> {
    spec_pseudo_upto(b, 64)
}

/// The move leaves the mover's own king attacked; such a move is
/// illegal.
pub open spec fn spec_leaves_king_attacked(b: Board, m: Move) -> bool {
    let us = b.side_to_move;
    let b2 = spec_make_move(b, m);
    let ks = b2.spec_king_square(us);
    ks < 64 && attacks::spec_square_attacked(b2, ks, us.spec_opposite())
}

/// The pseudo-legal moves that survive the king-safety filter, in
/// generation order.
pub open spec fn spec_filter_legal(b: Board, s: Seq<Move>) -> Seq<Move>
    decreases s.len(),
{
    if s.len() == 0 {
        Seq::empty()
    } else {
        let rest = spec_filter_legal(b, s.drop_last());
        if !spec_leaves_king_attacked(b, s.last()) {
            rest.push(s.last())
        } else {
            rest
        }
    }
}

/// Every legal move of the side to move.
pub open spec fn spec_legal_moves(b: Board) -> Seq<Move> {
    spec_filter_legal(b, spec_pseudo_moves(b))
}


proof fn lemma_shift_concat(o: Seq<Move>, x: Seq<Move>, y: Seq<Move>)
    ensures
        (o + x) + y == o + (x + y),
{
    vstd::seq_lib::lemma_concat_associative(o, x, y);
}

fn push_pawn_target(sq: u8, t: u8, us: Color, capture: bool, out: &mut Vec<Move>)
    ensures
        final(out)@ == old(out)@ + spec_pawn_target_moves(sq, t, us, capture),
{
    let p = Piece { kind: PieceKind::Pawn, color: us };
    if (us == Color::White && t >= 56) || (us == Color::Black && t < 8) {
        out.push(Move { from: sq, to: t, piece: p, capture, special: Some(SpecialMove::Promotion(PieceKind::Knight)) });
        out.push(Move { from: sq, to: t, piece: p, capture, special: Some(SpecialMove::Promotion(PieceKind::Bishop)) });
        out.push(Move { from: sq, to: t, piece: p, capture, special: Some(SpecialMove::Promotion(PieceKind::Rook)) });
        out.push(Move { from: sq, to: t, piece: p, capture, special: Some(SpecialMove::Promotion(PieceKind::Queen)) });
        assert(out@ =~= old(out)@ + spec_pawn_target_moves(sq, t, us, capture));
    } else {
        out.push(Move { from: sq, to: t, piece: p, capture, special: None });
        assert(out@ =~= old(out)@ + spec_pawn_target_moves(sq, t, us, capture));
    }
}

fn gen_pawn_moves(b: &Board, sq: u8, us: Color, out: &mut Vec<Move>)
    requires
        sq < 64,
    ensures
        final(out)@ == old(out)@ + spec_pawn_moves(*b, sq, us),
{
    let ghost s1 = spec_pawn_push_moves(*b, sq, us);
    let ghost s2 = spec_pawn_double_moves(*b, sq, us);
    let ghost s3 = spec_pawn_capture_moves(*b, sq, us, -1);
    let ghost s4 = spec_pawn_capture_moves(*b, sq, us, 1);
    let ghost s5 = spec_pawn_ep_moves(*b, sq, us, -1);
    let ghost s6 = spec_pawn_ep_moves(*b, sq, us, 1);
    let dr: i8 = if us == Color::White {
        1
    } else {
        -1
    };
    let p = Piece { kind: PieceKind::Pawn, color: us };
    match offset(sq, 0, dr) {
        Some(t) => {
            if b.piece(t).is_none() {
                push_pawn_target(sq, t, us, false, out);
            }
        },
        None => {},
    }
    assert(out@ =~= old(out)@ + s1);
    let on_start = if us == Color::White {
        8 <= sq && sq < 16
    } else {
        48 <= sq && sq < 56
    };
    if on_start {
        match (offset(sq, 0, dr), offset(sq, 0, 2 * dr)) {
            (Some(t1), Some(t2)) => {
                if b.piece(t1).is_none() && b.piece(t2).is_none() {
                    out.push(Move { from: sq, to: t2, piece: p, capture: false, special: Some(SpecialMove::DoublePush) });
                }
            },
            _ => {},
        }
    }
    assert(out@ =~= old(out)@ + s1 + s2);
    gen_pawn_capture(b, sq, us, -1, out);
    gen_pawn_capture(b, sq, us, 1, out);
    gen_pawn_ep(b, sq, us, -1, out);
    gen_pawn_ep(b, sq, us, 1, out);
    proof {
        let o = old(out)@;
        lemma_shift_concat(o, s1, s2);
        lemma_shift_concat(o, s1 + s2, s3);
        lemma_shift_concat(o, s1 + s2 + s3, s4);
        lemma_shift_concat(o, s1 + s2 + s3 + s4, s5);
        lemma_shift_concat(o, s1 + s2 + s3 + s4 + s5, s6);
        assert(spec_pawn_moves(*b, sq, us) == s1 + s2 + s3 + s4 + s5 + s6);
    }
}

fn gen_pawn_capture(b: &Board, sq: u8, us: Color, side: i8, out: &mut Vec<Move>)
    requires
        sq < 64,
        side == -1 || side == 1i8,
    ensures
        final(out)@ == old(out)@ + spec_pawn_capture_moves(*b, sq, us, side as int),
{
    let dr: i8 = if us == Color::White {
        1
    } else {
        -1
    };
    match offset(sq, side, dr) {
        Some(t) => match b.piece(t) {
            Some(q) => {
                if q.color != us {
                    push_pawn_target(sq, t, us, true, out);
                }
            },
            None => {},
        },
        None => {},
    }
    assert(out@ =~= old(out)@ + spec_pawn_capture_moves(*b, sq, us, side as int));
}

fn gen_pawn_ep(b: &Board, sq: u8, us: Color, side: i8, out: &mut Vec<Move>)
    requires
        sq < 64,
        side == -1 || side == 1i8,
    ensures
        final(out)@ == old(out)@ + spec_pawn_ep_moves(*b, sq, us, side as int),
{
    let dr: i8 = if us == Color::White {
        1
    } else {
        -1
    };
    let p = Piece { kind: PieceKind::Pawn, color: us };
    match offset(sq, side, dr) {
        Some(t) => {
            let is_ep_target = match b.en_passant {
                Some(e) => e == t,
                None => false,
            };
            if is_ep_target && b.piece(t).is_none() {
                let m = Move { from: sq, to: t, piece: p, capture: true, special: Some(SpecialMove::EnPassant) };
                let cs: u8 = if us == Color::White {
                    t - 8
                } else {
                    t + 8
                };
                assert(cs == board::spec_capture_square(m));
                let enemy_pawn = Piece { kind: PieceKind::Pawn, color: us.opposite() };
                if crate::bits::test_bit(b.board(enemy_pawn), cs as u64) {
                    out.push(m);
                }
            }
        },
        None => {},
    }
    assert(out@ =~= old(out)@ + spec_pawn_ep_moves(*b, sq, us, side as int));
}

fn gen_step_move(b: &Board, sq: u8, p: Piece, df: i8, dr: i8, out: &mut Vec<Move>)
    requires
        sq < 64,
        -8 <= df < 8,
        -8 <= dr < 8,
    ensures
        final(out)@ == old(out)@ + spec_step_moves(*b, sq, p, df as int, dr as int),
{
    match offset(sq, df, dr) {
        Some(t) => match b.piece(t) {
            None => {
                out.push(Move { from: sq, to: t, piece: p, capture: false, special: None });
            },
            Some(q) => {
                if q.color != p.color {
                    out.push(Move { from: sq, to: t, piece: p, capture: true, special: None });
                }
            },
        },
        None => {},
    }
    assert(out@ =~= old(out)@ + spec_step_moves(*b, sq, p, df as int, dr as int));
}

fn gen_ray_moves(b: &Board, from: u8, cur: u8, p: Piece, df: i8, dr: i8, fuel: u8, out: &mut Vec<Move>)
    requires
        from < 64,
        cur < 64,
        -8 <= df < 8,
        -8 <= dr < 8,
    ensures
        final(out)@ == old(out)@ + spec_ray_moves(*b, from, cur, p, df as int, dr as int, fuel as nat),
    decreases fuel,
{
    if fuel == 0 {
        assert(out@ =~= old(out)@ + spec_ray_moves(*b, from, cur, p, df as int, dr as int, fuel as nat));
        return;
    }
    match offset(cur, df, dr) {
        None => {},
        Some(t) => match b.piece(t) {
            None => {
                out.push(Move { from, to: t, piece: p, capture: false, special: None });
                gen_ray_moves(b, from, t, p, df, dr, fuel - 1, out);
            },
            Some(q) => {
                if q.color != p.color {
                    out.push(Move { from, to: t, piece: p, capture: true, special: None });
                }
            },
        },
    }
    assert(out@ =~= old(out)@ + spec_ray_moves(*b, from, cur, p, df as int, dr as int, fuel as nat));
}

#[verifier::rlimit(60)]
fn gen_knight_moves(b: &Board, sq: u8, p: Piece, out: &mut Vec<Move>)
    requires
        sq < 64,
    ensures
        final(out)@ == old(out)@ + spec_knight_moves(*b, sq, p),
{
    let ghost s1 = spec_step_moves(*b, sq, p, -2, -1);
    let ghost s2 = spec_step_moves(*b, sq, p, -2, 1);
    let ghost s3 = spec_step_moves(*b, sq, p, -1, -2);
    let ghost s4 = spec_step_moves(*b, sq, p, -1, 2);
    let ghost s5 = spec_step_moves(*b, sq, p, 1, -2);
    let ghost s6 = spec_step_moves(*b, sq, p, 1, 2);
    let ghost s7 = spec_step_moves(*b, sq, p, 2, -1);
    let ghost s8 = spec_step_moves(*b, sq, p, 2, 1);
    gen_step_move(b, sq, p, -2, -1, out);
    gen_step_move(b, sq, p, -2, 1, out);
    gen_step_move(b, sq, p, -1, -2, out);
    gen_step_move(b, sq, p, -1, 2, out);
    gen_step_move(b, sq, p, 1, -2, out);
    gen_step_move(b, sq, p, 1, 2, out);
    gen_step_move(b, sq, p, 2, -1, out);
    gen_step_move(b, sq, p, 2, 1, out);
    proof {
        let o = old(out)@;
        lemma_shift_concat(o, s1, s2);
        lemma_shift_concat(o, s1 + s2, s3);
        lemma_shift_concat(o, s1 + s2 + s3, s4);
        lemma_shift_concat(o, s1 + s2 + s3 + s4, s5);
        lemma_shift_concat(o, s1 + s2 + s3 + s4 + s5, s6);
        lemma_shift_concat(o, s1 + s2 + s3 + s4 + s5 + s6, s7);
        lemma_shift_concat(o, s1 + s2 + s3 + s4 + s5 + s6 + s7, s8);
        assert(spec_knight_moves(*b, sq, p) == s1 + s2 + s3 + s4 + s5 + s6 + s7 + s8);
    }
}

#[verifier::rlimit(60)]
fn gen_king_step_moves(b: &Board, sq: u8, p: Piece, out: &mut Vec<Move>)
    requires
        sq < 64,
    ensures
        final(out)@ == old(out)@ + spec_king_step_moves(*b, sq, p),
{
    let ghost s1 = spec_step_moves(*b, sq, p, -1, -1);
    let ghost s2 = spec_step_moves(*b, sq, p, -1, 0);
    let ghost s3 = spec_step_moves(*b, sq, p, -1, 1);
    let ghost s4 = spec_step_moves(*b, sq, p, 0, -1);
    let ghost s5 = spec_step_moves(*b, sq, p, 0, 1);
    let ghost s6 = spec_step_moves(*b, sq, p, 1, -1);
    let ghost s7 = spec_step_moves(*b, sq, p, 1, 0);
    let ghost s8 = spec_step_moves(*b, sq, p, 1, 1);
    gen_step_move(b, sq, p, -1, -1, out);
    gen_step_move(b, sq, p, -1, 0, out);
    gen_step_move(b, sq, p, -1, 1, out);
    gen_step_move(b, sq, p, 0, -1, out);
    gen_step_move(b, sq, p, 0, 1, out);
    gen_step_move(b, sq, p, 1, -1, out);
    gen_step_move(b, sq, p, 1, 0, out);
    gen_step_move(b, sq, p, 1, 1, out);
    proof {
        let o = old(out)@;
        lemma_shift_concat(o, s1, s2);
        lemma_shift_concat(o, s1 + s2, s3);
        lemma_shift_concat(o, s1 + s2 + s3, s4);
        lemma_shift_concat(o, s1 + s2 + s3 + s4, s5);
        lemma_shift_concat(o, s1 + s2 + s3 + s4 + s5, s6);
        lemma_shift_concat(o, s1 + s2 + s3 + s4 + s5 + s6, s7);
        lemma_shift_concat(o, s1 + s2 + s3 + s4 + s5 + s6 + s7, s8);
        assert(spec_king_step_moves(*b, sq, p) == s1 + s2 + s3 + s4 + s5 + s6 + s7 + s8);
    }
}

#[verifier::rlimit(60)]
fn gen_bishop_rays(b: &Board, sq: u8, p: Piece, out: &mut Vec<Move>)
    requires
        sq < 64,
    ensures
        final(out)@ == old(out)@ + spec_bishop_rays(*b, sq, p),
{
    gen_ray_moves(b, sq, sq, p, -1, -1, 8, out);
    gen_ray_moves(b, sq, sq, p, -1, 1, 8, out);
    gen_ray_moves(b, sq, sq, p, 1, -1, 8, out);
    gen_ray_moves(b, sq, sq, p, 1, 1, 8, out);
    assert(out@ =~= old(out)@ + spec_bishop_rays(*b, sq, p));
}

#[verifier::rlimit(60)]
fn gen_rook_rays(b: &Board, sq: u8, p: Piece, out: &mut Vec<Move>)
    requires
        sq < 64,
    ensures
        final(out)@ == old(out)@ + spec_rook_rays(*b, sq, p),
{
    gen_ray_moves(b, sq, sq, p, -1, 0, 8, out);
    gen_ray_moves(b, sq, sq, p, 1, 0, 8, out);
    gen_ray_moves(b, sq, sq, p, 0, -1, 8, out);
    gen_ray_moves(b, sq, sq, p, 0, 1, 8, out);
    assert(out@ =~= old(out)@ + spec_rook_rays(*b, sq, p));
}

#[verifier::rlimit(60)]
fn gen_castle_moves(b: &Board, sq: u8, us: Color, out: &mut Vec<Move>)
    requires
        sq < 64,
    ensures
        final(out)@ == old(out)@ + spec_castle_moves(*b, sq, us),
{
    let them = us.opposite();
    let king = Piece { kind: PieceKind::King, color: us };
    if us == Color::White && sq == 4 {
        if b.can_castle & board::WHITE_KINGSIDE != 0 && b.piece(5).is_none() && b.piece(6).is_none()
            && crate::bits::test_bit(b.w_rook, 7) && !attacks::square_attacked(b, 4, them)
            && !attacks::square_attacked(b, 5, them) && !attacks::square_attacked(b, 6, them) {
            out.push(Move { from: 4, to: 6, piece: king, capture: false, special: Some(SpecialMove::Castle) });
        }
        if b.can_castle & board::WHITE_QUEENSIDE != 0 && b.piece(3).is_none() && b.piece(2).is_none()
            && b.piece(1).is_none() && crate::bits::test_bit(b.w_rook, 0)
            && !attacks::square_attacked(b, 4, them) && !attacks::square_attacked(b, 3, them)
            && !attacks::square_attacked(b, 2, them) {
            out.push(Move { from: 4, to: 2, piece: king, capture: false, special: Some(SpecialMove::Castle) });
        }
    } else if us == Color::Black && sq == 60 {
        if b.can_castle & board::BLACK_KINGSIDE != 0 && b.piece(61).is_none() && b.piece(62).is_none()
            && crate::bits::test_bit(b.b_rook, 63) && !attacks::square_attacked(b, 60, them)
            && !attacks::square_attacked(b, 61, them) && !attacks::square_attacked(b, 62, them) {
            out.push(Move { from: 60, to: 62, piece: king, capture: false, special: Some(SpecialMove::Castle) });
        }
        if b.can_castle & board::BLACK_QUEENSIDE != 0 && b.piece(59).is_none() && b.piece(58).is_none()
            && b.piece(57).is_none() && crate::bits::test_bit(b.b_rook, 56)
            && !attacks::square_attacked(b, 60, them) && !attacks::square_attacked(b, 59, them)
            && !attacks::square_attacked(b, 58, them) {
            out.push(Move { from: 60, to: 58, piece: king, capture: false, special: Some(SpecialMove::Castle) });
        }
    }
    assert(out@ =~= old(out)@ + spec_castle_moves(*b, sq, us));
}

#[verifier::rlimit(60)]
fn gen_moves_from(b: &Board, sq: u8, out: &mut Vec<Move>)
    requires
        sq < 64,
    ensures
        final(out)@ == old(out)@ + spec_moves_from(*b, sq),
{
    match b.piece(sq) {
        Some(p) => {
            if p.color == b.side_to_move {
                match p.kind {
                    PieceKind::Pawn => gen_pawn_moves(b, sq, p.color, out),
                    PieceKind::Knight => gen_knight_moves(b, sq, p, out),
                    PieceKind::Bishop => gen_bishop_rays(b, sq, p, out),
                    PieceKind::Rook => gen_rook_rays(b, sq, p, out),
                    PieceKind::Queen => {
                        gen_bishop_rays(b, sq, p, out);
                        gen_rook_rays(b, sq, p, out);
                    },
                    PieceKind::King => {
                        gen_king_step_moves(b, sq, p, out);
                        gen_castle_moves(b, sq, p.color, out);
                    },
                }
            }
        },
        None => {},
    }
    assert(out@ =~= old(out)@ + spec_moves_from(*b, sq));
}

/// Every pseudo-legal move of the side to move, in square order.
pub fn pseudo_moves(b: &Board) -> (r: Vec<Move>)
    ensures
        r@ == spec_pseudo_moves(*b),
{
    let mut out: Vec<Move> = Vec::new();
    let mut sq: u8 = 0;
    while sq < 64
        invariant
            sq <= 64,
            out@ == spec_pseudo_upto(*b, sq as int),
        decreases 64 - sq,
    {
        gen_moves_from(b, sq, &mut out);
        sq = sq + 1;
    }
    out
}

/// Every move of the sequence meets `move_ok` on this board.
pub open spec fn all_moves_ok(b: Board, s: Seq<Move>) -> bool {
    forall|i: int| 0 <= i < s.len() ==> move_ok(b, #[trigger] s[i])
}

proof fn lemma_all_ok_concat(b: Board, s1: Seq<Move>, s2: Seq<Move>)
    requires
        all_moves_ok(b, s1),
        all_moves_ok(b, s2),
    ensures
        all_moves_ok(b, s1 + s2),
{
    assert forall|i: int| 0 <= i < (s1 + s2).len() implies move_ok(b, #[trigger] (s1 + s2)[i]) by {
        if i < s1.len() {
            assert((s1 + s2)[i] == s1[i]);
        } else {
            assert((s1 + s2)[i] == s2[i - s1.len()]);
        }
    }
}

/// The square an in-bounds offset reaches, with its coordinates.
proof fn lemma_offset_props(sq: u8, df: int, dr: int)
    requires
        sq < 64,
        spec_offset(sq, df, dr).is_some(),
    ensures
        spec_offset(sq, df, dr).unwrap() < 64,
        crate::square::spec_file(spec_offset(sq, df, dr).unwrap()) == crate::square::spec_file(sq)
            + df,
        crate::square::spec_rank(spec_offset(sq, df, dr).unwrap()) == crate::square::spec_rank(sq)
            + dr,
        df != 0 || dr != 0 ==> spec_offset(sq, df, dr).unwrap() != sq,
{
    let f = crate::square::spec_file(sq) + df;
    let r = crate::square::spec_rank(sq) + dr;
    let t = spec_offset(sq, df, dr).unwrap();
    assert(t == r * 8 + f);
    assert(crate::square::spec_file(t) == f && crate::square::spec_rank(t) == r) by (nonlinear_arith)
        requires
            t == r * 8 + f,
            0 <= f < 8,
            0 <= r < 8,
    ;
}

/// The found piece's board holds the square's bit.
pub proof fn lemma_piece_at_some(b: Board, sq: u8, p: Piece)
    requires
        b.spec_piece_at(sq) == Some(p),
    ensures
        crate::bits::bit(b.spec_bb(p), sq as u64),
{
}

/// An empty square's bit is absent from every board.
pub proof fn lemma_piece_at_none(b: Board, sq: u8)
    requires
        b.spec_piece_at(sq).is_none(),
    ensures
        forall|p: Piece| !crate::bits::bit(#[trigger] b.spec_bb(p), sq as u64),
{
    assert forall|p: Piece| !crate::bits::bit(#[trigger] b.spec_bb(p), sq as u64) by {
        match (p.color, p.kind) {
            (Color::White, PieceKind::Pawn) => {},
            (Color::White, PieceKind::Knight) => {},
            (Color::White, PieceKind::Bishop) => {},
            (Color::White, PieceKind::Rook) => {},
            (Color::White, PieceKind::Queen) => {},
            (Color::White, PieceKind::King) => {},
            (Color::Black, PieceKind::Pawn) => {},
            (Color::Black, PieceKind::Knight) => {},
            (Color::Black, PieceKind::Bishop) => {},
            (Color::Black, PieceKind::Rook) => {},
            (Color::Black, PieceKind::Queen) => {},
            (Color::Black, PieceKind::King) => {},
        }
    }
}

proof fn lemma_pawn_target_ok(b: Board, sq: u8, t: u8, us: Color, capture: bool)
    requires
        sq < 64,
        t < 64,
        t != sq,
        us == b.side_to_move,
        b.spec_piece_at(sq) == Some(Piece { kind: PieceKind::Pawn, color: us }),
        capture ==> (b.spec_piece_at(t) matches Some(q) && q.color == us.spec_opposite()),
        !capture ==> b.spec_piece_at(t).is_none(),
    ensures
        all_moves_ok(b, spec_pawn_target_moves(sq, t, us, capture)),
{
    lemma_piece_at_some(b, sq, Piece { kind: PieceKind::Pawn, color: us });
    let s = spec_pawn_target_moves(sq, t, us, capture);
    assert forall|i: int| 0 <= i < s.len() implies move_ok(b, #[trigger] s[i]) by {
        if (us == Color::White && t >= 56) || (us == Color::Black && t < 8) {
            assert(s.len() == 4);
        } else {
            assert(s.len() == 1);
        }
    }
}

proof fn lemma_pawn_moves_ok(b: Board, sq: u8, us: Color)
    requires
        sq < 64,
        us == b.side_to_move,
        b.spec_piece_at(sq) == Some(Piece { kind: PieceKind::Pawn, color: us }),
    ensures
        all_moves_ok(b, spec_pawn_moves(b, sq, us)),
{
    lemma_piece_at_some(b, sq, Piece { kind: PieceKind::Pawn, color: us });
    let dr = spec_pawn_dr(us);
    if spec_offset(sq, 0, dr).is_some() {
        lemma_offset_props(sq, 0, dr);
        let t = spec_offset(sq, 0, dr).unwrap();
        if b.spec_piece_at(t).is_none() {
            lemma_pawn_target_ok(b, sq, t, us, false);
        }
    }
    assert(all_moves_ok(b, spec_pawn_push_moves(b, sq, us)));
    if spec_offset(sq, 0, 2 * dr).is_some() {
        lemma_offset_props(sq, 0, 2 * dr);
    }
    assert(all_moves_ok(b, spec_pawn_double_moves(b, sq, us)));
    if spec_offset(sq, -1, dr).is_some() {
        lemma_offset_props(sq, -1, dr);
        let t = spec_offset(sq, -1, dr).unwrap();
        if b.spec_piece_at(t) matches Some(q) && q.color != us {
            lemma_pawn_target_ok(b, sq, t, us, true);
        }
    }
    assert(all_moves_ok(b, spec_pawn_capture_moves(b, sq, us, -1)));
    if spec_offset(sq, 1, dr).is_some() {
        lemma_offset_props(sq, 1, dr);
        let t = spec_offset(sq, 1, dr).unwrap();
        if b.spec_piece_at(t) matches Some(q) && q.color != us {
            lemma_pawn_target_ok(b, sq, t, us, true);
        }
    }
    assert(all_moves_ok(b, spec_pawn_capture_moves(b, sq, us, 1)));
    if spec_offset(sq, -1, dr).is_some() {
        lemma_offset_props(sq, -1, dr);
    }
    assert(all_moves_ok(b, spec_pawn_ep_moves(b, sq, us, -1)));
    if spec_offset(sq, 1, dr).is_some() {
        lemma_offset_props(sq, 1, dr);
    }
    assert(all_moves_ok(b, spec_pawn_ep_moves(b, sq, us, 1)));
    lemma_all_ok_concat(b, spec_pawn_push_moves(b, sq, us), spec_pawn_double_moves(b, sq, us));
    lemma_all_ok_concat(
        b,
        spec_pawn_push_moves(b, sq, us) + spec_pawn_double_moves(b, sq, us),
        spec_pawn_capture_moves(b, sq, us, -1),
    );
    lemma_all_ok_concat(
        b,
        spec_pawn_push_moves(b, sq, us) + spec_pawn_double_moves(b, sq, us)
            + spec_pawn_capture_moves(b, sq, us, -1),
        spec_pawn_capture_moves(b, sq, us, 1),
    );
    lemma_all_ok_concat(
        b,
        spec_pawn_push_moves(b, sq, us) + spec_pawn_double_moves(b, sq, us)
            + spec_pawn_capture_moves(b, sq, us, -1) + spec_pawn_capture_moves(b, sq, us, 1),
        spec_pawn_ep_moves(b, sq, us, -1),
    );
    lemma_all_ok_concat(
        b,
        spec_pawn_push_moves(b, sq, us) + spec_pawn_double_moves(b, sq, us)
            + spec_pawn_capture_moves(b, sq, us, -1) + spec_pawn_capture_moves(b, sq, us, 1)
            + spec_pawn_ep_moves(b, sq, us, -1),
        spec_pawn_ep_moves(b, sq, us, 1),
    );
}

proof fn lemma_step_moves_ok(b: Board, sq: u8, p: Piece, df: int, dr: int)
    requires
        sq < 64,
        p.color == b.side_to_move,
        b.spec_piece_at(sq) == Some(p),
        df != 0 || dr != 0,
    ensures
        all_moves_ok(b, spec_step_moves(b, sq, p, df, dr)),
{
    lemma_piece_at_some(b, sq, p);
    if spec_offset(sq, df, dr).is_some() {
        lemma_offset_props(sq, df, dr);
    }
}

proof fn lemma_ray_moves_ok(b: Board, from: u8, cur: u8, p: Piece, df: int, dr: int, fuel: nat)
    requires
        from < 64,
        cur < 64,
        -1 <= df <= 1,
        -1 <= dr <= 1,
        df != 0 || dr != 0,
        p.color == b.side_to_move,
        crate::bits::bit(b.spec_bb(p), from as u64),
        df > 0 ==> crate::square::spec_file(cur) >= crate::square::spec_file(from),
        df < 0 ==> crate::square::spec_file(cur) <= crate::square::spec_file(from),
        df == 0 ==> crate::square::spec_file(cur) == crate::square::spec_file(from),
        dr > 0 ==> crate::square::spec_rank(cur) >= crate::square::spec_rank(from),
        dr < 0 ==> crate::square::spec_rank(cur) <= crate::square::spec_rank(from),
        dr == 0 ==> crate::square::spec_rank(cur) == crate::square::spec_rank(from),
    ensures
        all_moves_ok(b, spec_ray_moves(b, from, cur, p, df, dr, fuel)),
    decreases fuel,
{
    if fuel == 0 {
        return ;
    }
    if spec_offset(cur, df, dr).is_some() {
        lemma_offset_props(cur, df, dr);
        let t = spec_offset(cur, df, dr).unwrap();
        assert(t != from);
        match b.spec_piece_at(t) {
            None => {
                lemma_ray_moves_ok(b, from, t, p, df, dr, (fuel - 1) as nat);
                let m = Move { from, to: t, piece: p, capture: false, special: None };
                assert(move_ok(b, m));
                lemma_all_ok_concat(
                    b,
                    seq![m],
                    spec_ray_moves(b, from, t, p, df, dr, (fuel - 1) as nat),
                );
            },
            Some(q) => {
            },
        }
    }
}

proof fn lemma_castle_moves_ok(b: Board, sq: u8, us: Color)
    requires
        sq < 64,
        us == b.side_to_move,
        b.spec_piece_at(sq) == Some(Piece { kind: PieceKind::King, color: us }),
    ensures
        all_moves_ok(b, spec_castle_moves(b, sq, us)),
{
    lemma_piece_at_some(b, sq, Piece { kind: PieceKind::King, color: us });
}

proof fn lemma_moves_from_ok(b: Board, sq: u8)
    requires
        sq < 64,
    ensures
        all_moves_ok(b, spec_moves_from(b, sq)),
{
    match b.spec_piece_at(sq) {
        Some(p) => {
            if p.color == b.side_to_move {
                match p.kind {
                    PieceKind::Pawn => {
                        lemma_pawn_moves_ok(b, sq, p.color);
                        assert(p == (Piece { kind: PieceKind::Pawn, color: p.color }));
                    },
                    PieceKind::Knight => {
                        lemma_step_moves_ok(b, sq, p, -2, -1);
                        lemma_step_moves_ok(b, sq, p, -2, 1);
                        lemma_step_moves_ok(b, sq, p, -1, -2);
                        lemma_step_moves_ok(b, sq, p, -1, 2);
                        lemma_step_moves_ok(b, sq, p, 1, -2);
                        lemma_step_moves_ok(b, sq, p, 1, 2);
                        lemma_step_moves_ok(b, sq, p, 2, -1);
                        lemma_step_moves_ok(b, sq, p, 2, 1);
                        lemma_knight_concat_ok(b, sq, p);
                    },
                    PieceKind::Bishop => {
                        lemma_bishop_rays_ok(b, sq, p);
                    },
                    PieceKind::Rook => {
                        lemma_rook_rays_ok(b, sq, p);
                    },
                    PieceKind::Queen => {
                        lemma_bishop_rays_ok(b, sq, p);
                        lemma_rook_rays_ok(b, sq, p);
                        lemma_all_ok_concat(b, spec_bishop_rays(b, sq, p), spec_rook_rays(b, sq, p));
                    },
                    PieceKind::King => {
                        lemma_step_moves_ok(b, sq, p, -1, -1);
                        lemma_step_moves_ok(b, sq, p, -1, 0);
                        lemma_step_moves_ok(b, sq, p, -1, 1);
                        lemma_step_moves_ok(b, sq, p, 0, -1);
                        lemma_step_moves_ok(b, sq, p, 0, 1);
                        lemma_step_moves_ok(b, sq, p, 1, -1);
                        lemma_step_moves_ok(b, sq, p, 1, 0);
                        lemma_step_moves_ok(b, sq, p, 1, 1);
                        lemma_king_concat_ok(b, sq, p);
                        lemma_castle_moves_ok(b, sq, p.color);
                        assert(p == (Piece { kind: PieceKind::King, color: p.color }));
                        lemma_all_ok_concat(
                            b,
                            spec_king_step_moves(b, sq, p),
                            spec_castle_moves(b, sq, p.color),
                        );
                    },
                }
            }
        },
        None => {},
    }
}

proof fn lemma_knight_concat_ok(b: Board, sq: u8, p: Piece)
    requires
        forall|df: int, dr: int| (df == -2 || df == -1 || df == 1 || df == 2) && (dr == -2 || dr
            == -1 || dr == 1 || dr == 2) ==> all_moves_ok(b, #[trigger] spec_step_moves(b, sq, p, df, dr)),
    ensures
        all_moves_ok(b, spec_knight_moves(b, sq, p)),
{
    lemma_all_ok_concat(b, spec_step_moves(b, sq, p, -2, -1), spec_step_moves(b, sq, p, -2, 1));
    lemma_all_ok_concat(
        b,
        spec_step_moves(b, sq, p, -2, -1) + spec_step_moves(b, sq, p, -2, 1),
        spec_step_moves(b, sq, p, -1, -2),
    );
    lemma_all_ok_concat(
        b,
        spec_step_moves(b, sq, p, -2, -1) + spec_step_moves(b, sq, p, -2, 1) + spec_step_moves(
            b,
            sq,
            p,
            -1,
            -2,
        ),
        spec_step_moves(b, sq, p, -1, 2),
    );
    lemma_all_ok_concat(
        b,
        spec_step_moves(b, sq, p, -2, -1) + spec_step_moves(b, sq, p, -2, 1) + spec_step_moves(
            b,
            sq,
            p,
            -1,
            -2,
        ) + spec_step_moves(b, sq, p, -1, 2),
        spec_step_moves(b, sq, p, 1, -2),
    );
    lemma_all_ok_concat(
        b,
        spec_step_moves(b, sq, p, -2, -1) + spec_step_moves(b, sq, p, -2, 1) + spec_step_moves(
            b,
            sq,
            p,
            -1,
            -2,
        ) + spec_step_moves(b, sq, p, -1, 2) + spec_step_moves(b, sq, p, 1, -2),
        spec_step_moves(b, sq, p, 1, 2),
    );
    lemma_all_ok_concat(
        b,
        spec_step_moves(b, sq, p, -2, -1) + spec_step_moves(b, sq, p, -2, 1) + spec_step_moves(
            b,
            sq,
            p,
            -1,
            -2,
        ) + spec_step_moves(b, sq, p, -1, 2) + spec_step_moves(b, sq, p, 1, -2) + spec_step_moves(
            b,
            sq,
            p,
            1,
            2,
        ),
        spec_step_moves(b, sq, p, 2, -1),
    );
    lemma_all_ok_concat(
        b,
        spec_step_moves(b, sq, p, -2, -1) + spec_step_moves(b, sq, p, -2, 1) + spec_step_moves(
            b,
            sq,
            p,
            -1,
            -2,
        ) + spec_step_moves(b, sq, p, -1, 2) + spec_step_moves(b, sq, p, 1, -2) + spec_step_moves(
            b,
            sq,
            p,
            1,
            2,
        ) + spec_step_moves(b, sq, p, 2, -1),
        spec_step_moves(b, sq, p, 2, 1),
    );
}

proof fn lemma_king_concat_ok(b: Board, sq: u8, p: Piece)
    requires
        forall|df: int, dr: int| -1 <= df <= 1 && -1 <= dr <= 1 && (df != 0 || dr != 0)
            ==> all_moves_ok(b, #[trigger] spec_step_moves(b, sq, p, df, dr)),
    ensures
        all_moves_ok(b, spec_king_step_moves(b, sq, p)),
{
    lemma_all_ok_concat(b, spec_step_moves(b, sq, p, -1, -1), spec_step_moves(b, sq, p, -1, 0));
    lemma_all_ok_concat(
        b,
        spec_step_moves(b, sq, p, -1, -1) + spec_step_moves(b, sq, p, -1, 0),
        spec_step_moves(b, sq, p, -1, 1),
    );
    lemma_all_ok_concat(
        b,
        spec_step_moves(b, sq, p, -1, -1) + spec_step_moves(b, sq, p, -1, 0) + spec_step_moves(
            b,
            sq,
            p,
            -1,
            1,
        ),
        spec_step_moves(b, sq, p, 0, -1),
    );
    lemma_all_ok_concat(
        b,
        spec_step_moves(b, sq, p, -1, -1) + spec_step_moves(b, sq, p, -1, 0) + spec_step_moves(
            b,
            sq,
            p,
            -1,
            1,
        ) + spec_step_moves(b, sq, p, 0, -1),
        spec_step_moves(b, sq, p, 0, 1),
    );
    lemma_all_ok_concat(
        b,
        spec_step_moves(b, sq, p, -1, -1) + spec_step_moves(b, sq, p, -1, 0) + spec_step_moves(
            b,
            sq,
            p,
            -1,
            1,
        ) + spec_step_moves(b, sq, p, 0, -1) + spec_step_moves(b, sq, p, 0, 1),
        spec_step_moves(b, sq, p, 1, -1),
    );
    lemma_all_ok_concat(
        b,
        spec_step_moves(b, sq, p, -1, -1) + spec_step_moves(b, sq, p, -1, 0) + spec_step_moves(
            b,
            sq,
            p,
            -1,
            1,
        ) + spec_step_moves(b, sq, p, 0, -1) + spec_step_moves(b, sq, p, 0, 1) + spec_step_moves(
            b,
            sq,
            p,
            1,
            -1,
        ),
        spec_step_moves(b, sq, p, 1, 0),
    );
    lemma_all_ok_concat(
        b,
        spec_step_moves(b, sq, p, -1, -1) + spec_step_moves(b, sq, p, -1, 0) + spec_step_moves(
            b,
            sq,
            p,
            -1,
            1,
        ) + spec_step_moves(b, sq, p, 0, -1) + spec_step_moves(b, sq, p, 0, 1) + spec_step_moves(
            b,
            sq,
            p,
            1,
            -1,
        ) + spec_step_moves(b, sq, p, 1, 0),
        spec_step_moves(b, sq, p, 1, 1),
    );
}

proof fn lemma_bishop_rays_ok(b: Board, sq: u8, p: Piece)
    requires
        sq < 64,
        p.color == b.side_to_move,
        b.spec_piece_at(sq) == Some(p),
    ensures
        all_moves_ok(b, spec_bishop_rays(b, sq, p)),
{
    lemma_piece_at_some(b, sq, p);
    lemma_ray_moves_ok(b, sq, sq, p, -1, -1, 8);
    lemma_ray_moves_ok(b, sq, sq, p, -1, 1, 8);
    lemma_ray_moves_ok(b, sq, sq, p, 1, -1, 8);
    lemma_ray_moves_ok(b, sq, sq, p, 1, 1, 8);
    lemma_all_ok_concat(
        b,
        spec_ray_moves(b, sq, sq, p, -1, -1, 8),
        spec_ray_moves(b, sq, sq, p, -1, 1, 8),
    );
    lemma_all_ok_concat(
        b,
        spec_ray_moves(b, sq, sq, p, -1, -1, 8) + spec_ray_moves(b, sq, sq, p, -1, 1, 8),
        spec_ray_moves(b, sq, sq, p, 1, -1, 8),
    );
    lemma_all_ok_concat(
        b,
        spec_ray_moves(b, sq, sq, p, -1, -1, 8) + spec_ray_moves(b, sq, sq, p, -1, 1, 8)
            + spec_ray_moves(b, sq, sq, p, 1, -1, 8),
        spec_ray_moves(b, sq, sq, p, 1, 1, 8),
    );
}

proof fn lemma_rook_rays_ok(b: Board, sq: u8, p: Piece)
    requires
        sq < 64,
        p.color == b.side_to_move,
        b.spec_piece_at(sq) == Some(p),
    ensures
        all_moves_ok(b, spec_rook_rays(b, sq, p)),
{
    lemma_piece_at_some(b, sq, p);
    lemma_ray_moves_ok(b, sq, sq, p, -1, 0, 8);
    lemma_ray_moves_ok(b, sq, sq, p, 1, 0, 8);
    lemma_ray_moves_ok(b, sq, sq, p, 0, -1, 8);
    lemma_ray_moves_ok(b, sq, sq, p, 0, 1, 8);
    lemma_all_ok_concat(
        b,
        spec_ray_moves(b, sq, sq, p, -1, 0, 8),
        spec_ray_moves(b, sq, sq, p, 1, 0, 8),
    );
    lemma_all_ok_concat(
        b,
        spec_ray_moves(b, sq, sq, p, -1, 0, 8) + spec_ray_moves(b, sq, sq, p, 1, 0, 8),
        spec_ray_moves(b, sq, sq, p, 0, -1, 8),
    );
    lemma_all_ok_concat(
        b,
        spec_ray_moves(b, sq, sq, p, -1, 0, 8) + spec_ray_moves(b, sq, sq, p, 1, 0, 8)
            + spec_ray_moves(b, sq, sq, p, 0, -1, 8),
        spec_ray_moves(b, sq, sq, p, 0, 1, 8),
    );
}

proof fn lemma_pseudo_upto_ok(b: Board, n: int)
    requires
        0 <= n <= 64,
    ensures
        all_moves_ok(b, spec_pseudo_upto(b, n)),
    decreases n,
{
    if n > 0 {
        lemma_pseudo_upto_ok(b, n - 1);
        lemma_moves_from_ok(b, (n - 1) as u8);
        lemma_all_ok_concat(b, spec_pseudo_upto(b, n - 1), spec_moves_from(b, (n - 1) as u8));
    }
}

/// Every pseudo-legal move the generator emits meets `move_ok`.
pub proof fn lemma_pseudo_moves_ok(b: Board)
    ensures
        all_moves_ok(b, spec_pseudo_moves(b)),
{
    lemma_pseudo_upto_ok(b, 64);
}

/// What the king-safety filter keeps: members of the input, with the
/// unsafe ones gone.
pub proof fn lemma_filter_legal_props(b: Board, s: Seq<Move>)
    ensures
        forall|i: int| 0 <= i < spec_filter_legal(b, s).len() ==> s.contains(
            #[trigger] spec_filter_legal(b, s)[i],
        ) && !spec_leaves_king_attacked(b, spec_filter_legal(b, s)[i]),
    decreases s.len(),
{
    if s.len() > 0 {
        lemma_filter_legal_props(b, s.drop_last());
        assert forall|i: int| 0 <= i < spec_filter_legal(b, s).len() implies s.contains(
            #[trigger] spec_filter_legal(b, s)[i],
        ) && !spec_leaves_king_attacked(b, spec_filter_legal(b, s)[i]) by {
            let f = spec_filter_legal(b, s);
            let fr = spec_filter_legal(b, s.drop_last());
            if i < fr.len() {
                assert(f[i] == fr[i]);
                let j = choose|j: int| 0 <= j < s.drop_last().len() && s.drop_last()[j] == fr[i];
                assert(s[j] == fr[i]);
            } else {
                assert(f[i] == s.last());
                assert(s[s.len() - 1] == s.last());
            }
        }
    }
}

/// Every legal move meets `move_ok` and leaves the mover's king safe.
pub proof fn lemma_legal_moves_ok(b: Board)
    ensures
        all_moves_ok(b, spec_legal_moves(b)),
        forall|i: int| 0 <= i < spec_legal_moves(b).len() ==> !spec_leaves_king_attacked(
            b,
            #[trigger] spec_legal_moves(b)[i],
        ),
        forall|i: int| 0 <= i < spec_legal_moves(b).len() ==> spec_pseudo_moves(b).contains(
            #[trigger] spec_legal_moves(b)[i],
        ),
{
    lemma_pseudo_moves_ok(b);
    lemma_filter_legal_props(b, spec_pseudo_moves(b));
    assert forall|i: int| 0 <= i < spec_legal_moves(b).len() implies move_ok(
        b,
        #[trigger] spec_legal_moves(b)[i],
    ) by {
        let m = spec_legal_moves(b)[i];
        let j = choose|j: int| 0 <= j < spec_pseudo_moves(b).len() && spec_pseudo_moves(b)[j] == m;
        assert(move_ok(b, spec_pseudo_moves(b)[j]));
    }
}

/// Every legal move of the position, in generation order.
pub fn legal_moves(b: &Board) -> (r: Vec<Move>)
    ensures
        r@ == spec_legal_moves(*b),
{
    let pseudo = pseudo_moves(b);
    proof {
        lemma_pseudo_moves_ok(*b);
    }
    let mut out: Vec<Move> = Vec::new();
    let mut i: usize = 0;
    while i < pseudo.len()
        invariant
            i <= pseudo@.len(),
            pseudo@ == spec_pseudo_moves(*b),
            out@ == spec_filter_legal(*b, pseudo@.take(i as int)),
        decreases pseudo@.len() - i,
    {
        let m = pseudo[i];
        proof {
            lemma_pseudo_moves_ok(*b);
            assert(move_ok(*b, pseudo@[i as int]));
        }
        let mut b2 = *b;
        b2.make_move(&m);
        let us = b.side_to_move;
        let ks = b2.king_square(us);
        let leaves = ks < 64 && attacks::square_attacked(&b2, ks, us.opposite());
        assert(leaves == spec_leaves_king_attacked(*b, m));
        if !leaves {
            out.push(m);
        }
        proof {
            assert(pseudo@.take(i as int + 1).drop_last() =~= pseudo@.take(i as int));
            assert(pseudo@.take(i as int + 1).last() == m);
        }
        i = i + 1;
    }
    proof {
        assert(pseudo@.take(pseudo@.len() as int) =~= pseudo@);
    }
    out
}

} // verus!
