//! Iterative-deepening negamax alpha-beta search with quiescence, a
//! transposition table, principal-variation tracking, move ordering,
//! and a cooperative wall-clock abort.

use vstd::prelude::*;
use crate::board::{move_ok, Board};
use crate::bot::BotTrait;
use crate::eval;
use crate::movegen::{self, spec_legal_moves};
use crate::moves::Move;
use crate::piece::PieceKind;
use crate::transposition::{TranspositionKind, TranspositionTable};
use crate::zobrist::Zobrist;
use crate::errors::EngineError;

verus! {

/// Rows of the principal-variation table, and the ply ceiling.
pub const MAX_PLY: usize = 128;

/// Scores stay within this band; the root window is narrower.
pub const SCORE_BOUND: i32 = 1_000_000;

/// The seed every engine draws its Zobrist keys from, for
/// reproducible play.
pub const ZOBRIST_SEED: u64 = 0x9e37_79b9_7f4a_7c15;

#[verifier::external_type_specification]
#[verifier::external_body]
pub struct ExInstant(std::time::Instant);

/// Relies on `std::time::Instant::now`; nothing is assumed of the
/// value.
#[verifier::external_body]
fn instant_now() -> std::time::Instant {
    std::time::Instant::now()
}

/// Relies on `Instant::elapsed` and `Duration::as_millis`; nothing is
/// assumed of the value.
#[verifier::external_body]
fn elapsed_millis(start: &std::time::Instant) -> u64 {
    start.elapsed().as_millis() as u64
}

pub struct Bot {
    pub depth: i32,
    pub transposition_table: TranspositionTable,
    pub zobrist: Zobrist,
    pub time: u64,
    pub should_stop: bool,
    pub start: std::time::Instant,
    pub pv_table: Vec<Vec<Move>>,
    pub pv_len: Vec<usize>,
    pub nodes_searched: u64,
    pub tt_hits: u64,
    pub score: i32,
    pub reached_depth: i32,
}

impl Bot {
    /// The engine's structural invariant: a triangular PV table of
    /// `MAX_PLY` rows, a nonempty transposition table holding bounded
    /// scores, and a well-formed key table.
    pub open spec fn inv(self) -> bool {
        &&& self.pv_table@.len() == MAX_PLY
        &&& self.pv_len@.len() == MAX_PLY
        &&& forall|i: int| 0 <= i < MAX_PLY ==> (#[trigger] self.pv_table@[i])@.len() == MAX_PLY
            - i
        &&& forall|i: int| 0 <= i < MAX_PLY ==> (#[trigger] self.pv_len@[i]) <= MAX_PLY - i
        &&& self.transposition_table.spec_entries().len() > 0
        &&& forall|i: int| 0 <= i < self.transposition_table.spec_entries().len()
            ==> -SCORE_BOUND <= (#[trigger] self.transposition_table.spec_entries()[i]).score
            <= SCORE_BOUND
        &&& self.zobrist.wf()
    }

    /// How many entries have been written to the table.
    pub closed spec fn spec_tt_stores(self) -> usize {
        self.transposition_table.stored_cnt
    }

    /// Evaluate a position, as the evaluator does.
    pub fn evaluate(board: &Board) -> (r: i32)
        ensures
            r == eval::spec_eval(*board),
    {
        eval::evaluate(board)
    }

    /// The vertically mirrored square, used to read the placement
    /// tables for Black.
    pub fn mirror_square(square: usize) -> (r: usize)
        requires
            square < 64,
        ensures
            r == crate::square::spec_mirror(square as u8),
    {
        crate::square::mirror_square(square as u8) as usize
    }

    pub fn tt_stores(&self) -> (r: usize)
        ensures
            r == self.spec_tt_stores(),
    {
        self.transposition_table.stored_cnt
    }

    /// Build an engine; a zero time budget or table size is refused.
    pub fn new(depth: i32, tt_entries: usize, ms: u64) -> (r: Result<Bot, EngineError>)
        ensures
            match r {
                Ok(bot) => {
                    &&& bot.inv()
                    &&& bot.zobrist.spec_seed() == ZOBRIST_SEED
                    &&& tt_entries > 0
                    &&& ms > 0
                    &&& bot.depth == depth
                    &&& bot.time == ms
                    &&& !bot.should_stop
                    &&& bot.transposition_table.spec_entries().len() == tt_entries
                    &&& forall|i: int| 0 <= i < tt_entries
                        ==> bot.transposition_table.spec_entries()[i]
                        == crate::transposition::spec_blank_entry()
                    &&& bot.transposition_table.stored_cnt == 0
                    &&& bot.nodes_searched == 0
                    &&& bot.tt_hits == 0
                    &&& bot.score == 0
                    &&& bot.reached_depth == 0
                    &&& forall|i: int| 0 <= i < MAX_PLY ==> (#[trigger] bot.pv_len@[i]) == 0
                    &&& forall|i: int, j: int| 0 <= i < MAX_PLY && 0 <= j < MAX_PLY - i
                        ==> (#[trigger] bot.pv_table@[i]@[j]) == Move::spec_empty()
                },
                Err(e) => e == EngineError::OutOfRange && (tt_entries == 0 || ms == 0),
            },
    {
        if tt_entries == 0 || ms == 0 {
            return Err(EngineError::OutOfRange);
        }
        let mut pv_table: Vec<Vec<Move>> = Vec::new();
        let mut i: usize = 0;
        while i < MAX_PLY
            invariant
                i <= MAX_PLY,
                pv_table@.len() == i,
                forall|j: int| 0 <= j < i ==> (#[trigger] pv_table@[j])@.len() == MAX_PLY - j,
                forall|j: int, k: int| 0 <= j < i && 0 <= k < MAX_PLY - j ==> (
                #[trigger] pv_table@[j]@[k]) == Move::spec_empty(),
            decreases MAX_PLY - i,
        {
            let mut row: Vec<Move> = Vec::new();
            let mut k: usize = 0;
            while k < MAX_PLY - i
                invariant
                    k <= MAX_PLY - i,
                    i < MAX_PLY,
                    row@.len() == k,
                    forall|j: int| 0 <= j < k ==> (#[trigger] row@[j]) == Move::spec_empty(),
                decreases MAX_PLY - i - k,
            {
                row.push(Move::empty());
                k = k + 1;
            }
            pv_table.push(row);
            i = i + 1;
        }
        let mut pv_len: Vec<usize> = Vec::new();
        let mut i: usize = 0;
        while i < MAX_PLY
            invariant
                i <= MAX_PLY,
                pv_len@.len() == i,
                forall|j: int| 0 <= j < i ==> (#[trigger] pv_len@[j]) == 0,
            decreases MAX_PLY - i,
        {
            pv_len.push(0);
            i = i + 1;
        }
        Ok(
            Bot {
                depth,
                transposition_table: TranspositionTable::new(tt_entries),
                zobrist: Zobrist::new(ZOBRIST_SEED),
                time: ms,
                should_stop: false,
                start: instant_now(),
                pv_table,
                pv_len,
                nodes_searched: 0,
                tt_hits: 0,
                score: 0,
                reached_depth: 0,
            },
        )
    }

    /// Decide the stop flag from an elapsed-time reading: it rises
    /// exactly when the reading has reached the budget.
    fn note_elapsed(&mut self, ms: u64)
        ensures
            *final(self) == (Bot { should_stop: final(self).should_stop, ..*old(self) }),
            final(self).should_stop == (old(self).should_stop || ms >= old(self).time),
    {
        if ms >= self.time {
            self.should_stop = true;
        }
    }

    /// Poll the wall clock; past the budget, raise the stop flag.
    fn check_time(&mut self)
        ensures
            *final(self) == (Bot { should_stop: final(self).should_stop, ..*old(self) }),
            old(self).should_stop ==> final(self).should_stop,
    {
        let ms = elapsed_millis(&self.start);
        self.note_elapsed(ms);
    }

    /// The ordering weight of a move: the previous principal
    /// variation's move first, then captures by most-valuable-victim /
    /// least-valuable-attacker, then the rest.
    pub open spec fn spec_move_score(pv_move: Move, board: Board, m: Move, score_pv: bool) -> i32 {
        if score_pv && m == pv_move {
            10_000
        } else if m.special == Some(crate::moves::SpecialMove::EnPassant) {
            (10 * eval::spec_piece_value(PieceKind::Pawn) - eval::spec_piece_value(
                PieceKind::Pawn,
            )) as i32
        } else {
            match board.spec_piece_at(m.to) {
                Some(p) => (10 * eval::spec_piece_value(p.kind) - eval::spec_piece_value(
                    m.piece.kind,
                )) as i32,
                None => 0,
            }
        }
    }

    fn move_score(&self, ply: usize, m: &Move, board: &Board, score_pv: bool) -> (r: i32)
        requires
            self.inv(),
            ply < MAX_PLY,
            m.to < 64,
        ensures
            r == Self::spec_move_score(self.pv_table@[ply as int]@[0], *board, *m, score_pv),
    {
        if score_pv && *m == self.pv_table[ply][0] {
            return 10_000;
        }
        let is_ep = match m.special {
            Some(crate::moves::SpecialMove::EnPassant) => true,
            _ => false,
        };
        if is_ep {
            return 10 * eval::piece_value(PieceKind::Pawn) - eval::piece_value(PieceKind::Pawn);
        }
        match board.piece(m.to) {
            Some(p) => 10 * eval::piece_value(p.kind) - eval::piece_value(m.piece.kind),
            None => 0,
        }
    }
}

/// Insert a scored move behind every at-least-as-good one, keeping
/// the order of equals.
pub open spec fn spec_insert_move(x: (Move, i32), s: Seq<(Move, i32)>) -> Seq<(Move, i32)>
    decreases s.len(),
{
    if s.len() == 0 {
        seq![x]
    } else if s[0].1 >= x.1 {
        seq![s[0]] + spec_insert_move(x, s.drop_first())
    } else {
        seq![x] + s
    }
}

/// Insertion sort of the scored moves, descending and stable.
pub open spec fn spec_sort_moves(s: Seq<(Move, i32)>, n: int) -> Seq<(Move, i32)>
    decreases n,
{
    if n <= 0 {
        Seq::empty()
    } else {
        spec_insert_move(s[n - 1], spec_sort_moves(s, n - 1))
    }
}

proof fn lemma_insert_move_props(x: (Move, i32), s: Seq<(Move, i32)>)
    ensures
        spec_insert_move(x, s).len() == s.len() + 1,
        forall|i: int| 0 <= i < spec_insert_move(x, s).len() ==> #[trigger] spec_insert_move(
            x,
            s,
        )[i] == x || s.contains(spec_insert_move(x, s)[i]),
    decreases s.len(),
{
    if s.len() > 0 && s[0].1 >= x.1 {
        lemma_insert_move_props(x, s.drop_first());
        let r = spec_insert_move(x, s);
        let rr = spec_insert_move(x, s.drop_first());
        assert forall|i: int| 0 <= i < r.len() implies #[trigger] r[i] == x || s.contains(
            r[i],
        ) by {
            if i == 0 {
                assert(s[0] == r[0]);
                assert(s.contains(r[0])) by {
                    assert(s[0] == r[0]);
                }
            } else {
                assert(r[i] == rr[i - 1]);
                if rr[i - 1] != x {
                    let j = choose|j: int| 0 <= j < s.drop_first().len() && s.drop_first()[j]
                        == rr[i - 1];
                    assert(s[j + 1] == rr[i - 1]);
                }
            }
        }
    }
}

proof fn lemma_sort_moves_props(s: Seq<(Move, i32)>, n: int)
    requires
        0 <= n <= s.len(),
    ensures
        spec_sort_moves(s, n).len() == n,
        forall|i: int| 0 <= i < n ==> s.contains(#[trigger] spec_sort_moves(s, n)[i]),
    decreases n,
{
    if n > 0 {
        lemma_sort_moves_props(s, n - 1);
        lemma_insert_move_props(s[n - 1], spec_sort_moves(s, n - 1));
        let r = spec_sort_moves(s, n);
        assert forall|i: int| 0 <= i < n implies s.contains(#[trigger] r[i]) by {
            if r[i] == s[n - 1] {
                assert(s.contains(r[i])) by {
                    assert(s[n - 1] == r[i]);
                }
            } else {
                assert(spec_sort_moves(s, n - 1).contains(r[i]));
                let j = choose|j: int| 0 <= j < n - 1 && (#[trigger] spec_sort_moves(s, n - 1)[j]) == r[i];
                assert(s.contains(spec_sort_moves(s, n - 1)[j]));
            }
        }
    }
}

impl Bot {
    /// The legal moves with their ordering weights, as sorted.
    pub open spec fn spec_scored_moves(pv_move: Move, board: Board, score_pv: bool) -> Seq<
        (Move, i32),
    > {
        let scored = spec_legal_moves(board).map_values(
            |m: Move| (m, Self::spec_move_score(pv_move, board, m, score_pv)),
        );
        spec_sort_moves(scored, scored.len() as int)
    }

    /// The legal moves ordered for search: by weight descending, ties
    /// in generation order.
    pub fn sorted_moves(&self, ply: usize, board: &Board, score_pv: bool) -> (r: Vec<Move>)
        requires
            self.inv(),
            ply < MAX_PLY,
        ensures
            r@.len() == spec_legal_moves(*board).len(),
            r@ == Self::spec_scored_moves(
                self.pv_table@[ply as int]@[0],
                *board,
                score_pv,
            ).map_values(|p: (Move, i32)| p.0),
            forall|i: int| 0 <= i < r@.len() ==> spec_legal_moves(*board).contains(
                #[trigger] r@[i],
            ),
    {
        let ghost pv_move = self.pv_table@[ply as int]@[0];
        let moves = movegen::legal_moves(board);
        let ghost scored_spec = spec_legal_moves(*board).map_values(
            |m: Move| (m, Self::spec_move_score(pv_move, *board, m, score_pv)),
        );
        let mut scored: Vec<(Move, i32)> = Vec::new();
        let mut i: usize = 0;
        while i < moves.len()
            invariant
                self.inv(),
                ply < MAX_PLY,
                i <= moves@.len(),
                moves@ == spec_legal_moves(*board),
                scored_spec == spec_legal_moves(*board).map_values(
                    |m: Move| (m, Self::spec_move_score(pv_move, *board, m, score_pv)),
                ),
                pv_move == self.pv_table@[ply as int]@[0],
                scored@.len() == i,
                forall|j: int| 0 <= j < i ==> scored@[j] == scored_spec[j],
            decreases moves@.len() - i,
        {
            let m = moves[i];
            proof {
                movegen::lemma_legal_moves_ok(*board);
                assert(move_ok(*board, moves@[i as int]));
            }
            let s = self.move_score(ply, &m, board, score_pv);
            scored.push((m, s));
            i = i + 1;
        }
        assert(scored@ =~= scored_spec);
        let mut out: Vec<(Move, i32)> = Vec::new();
        let mut i: usize = 0;
        while i < scored.len()
            invariant
                i <= scored@.len(),
                scored@ == scored_spec,
                out@ == spec_sort_moves(scored_spec, i as int),
            decreases scored@.len() - i,
        {
            let x = scored[i];
            proof {
                lemma_sort_moves_props(scored_spec, i as int);
            }
            let mut j: usize = 0;
            while j < out.len() && out[j].1 >= x.1
                invariant
                    j <= out@.len(),
                    forall|k: int| 0 <= k < j ==> (#[trigger] out@[k]).1 >= x.1,
                decreases out@.len() - j,
            {
                j = j + 1;
            }
            proof {
                lemma_insert_at(out@, x, j as int);
            }
            out.insert(j, x);
            i = i + 1;
        }
        let mut named: Vec<Move> = Vec::new();
        let ghost sorted_spec = Self::spec_scored_moves(pv_move, *board, score_pv);
        assert(out@ == sorted_spec);
        let mut i: usize = 0;
        while i < out.len()
            invariant
                i <= out@.len(),
                out@ == sorted_spec,
                named@.len() == i,
                forall|j: int| 0 <= j < i ==> named@[j] == (#[trigger] sorted_spec[j]).0,
            decreases out@.len() - i,
        {
            named.push(out[i].0);
            i = i + 1;
        }
        assert(named@ =~= sorted_spec.map_values(|p: (Move, i32)| p.0));
        proof {
            lemma_sort_moves_props(scored_spec, scored_spec.len() as int);
            assert forall|i: int| 0 <= i < named@.len() implies spec_legal_moves(
                *board,
            ).contains(#[trigger] named@[i]) by {
                assert(sorted_spec[i].0 == named@[i]);
                assert(scored_spec.contains(sorted_spec[i]));
                let j = choose|j: int| 0 <= j < scored_spec.len() && scored_spec[j]
                    == sorted_spec[i];
                assert(scored_spec[j].0 == spec_legal_moves(*board)[j]);
                assert(spec_legal_moves(*board).contains(spec_legal_moves(*board)[j]));
            }
        }
        named
    }
}

/// Inserting at the boundary scanned to matches the specified
/// insertion point.
proof fn lemma_insert_at(s: Seq<(Move, i32)>, x: (Move, i32), j: int)
    requires
        0 <= j <= s.len(),
        forall|k: int| 0 <= k < j ==> (#[trigger] s[k]).1 >= x.1,
        j < s.len() ==> s[j].1 < x.1,
    ensures
        s.insert(j, x) == spec_insert_move(x, s),
    decreases s.len(),
{
    if j == 0 {
        if s.len() == 0 {
            assert(s.insert(0, x) =~= seq![x]);
        } else {
            assert(s[0].1 < x.1);
            assert(s.insert(0, x) =~= seq![x] + s);
        }
    } else {
        assert(s[0].1 >= x.1);
        lemma_insert_at(s.drop_first(), x, j - 1);
        assert(s.insert(j, x) =~= seq![s[0]] + s.drop_first().insert(j - 1, x));
    }
}

/// A member of the legal-move list meets `move_ok` and leaves the own
/// king safe.
pub proof fn lemma_contained_move_ok(b: Board, m: Move)
    requires
        spec_legal_moves(b).contains(m),
    ensures
        move_ok(b, m),
        !movegen::spec_leaves_king_attacked(b, m),
{
    movegen::lemma_legal_moves_ok(b);
    let i = choose|i: int| 0 <= i < spec_legal_moves(b).len() && (#[trigger] spec_legal_moves(
        b,
    )[i]) == m;
    assert(move_ok(b, spec_legal_moves(b)[i]));
}

/// What probing the table for a position under a window would yield.
pub open spec fn spec_tt_probe(bot: Bot, board: Board, depth: i32, alpha: i32, beta: i32) -> Option<
    i32,
> {
    let h = crate::zobrist::spec_hash(bot.zobrist.spec_seed(), board);
    crate::transposition::spec_probe_entry(
        bot.transposition_table.spec_entries()[bot.transposition_table.spec_index_of(h)],
        h,
        depth,
        alpha,
        beta,
    )
}

/// No legal move of the position is a capture.
pub open spec fn spec_no_captures(b: Board) -> bool {
    forall|i: int| 0 <= i < spec_legal_moves(b).len() ==> !(#[trigger] spec_legal_moves(
        b,
    )[i]).capture
}

impl Bot {
    /// Quiescence: stand on the evaluation, then search captures only.
    /// Only the stop flag can change; when no abort occurs the result
    /// sits in the window, at least at the stand-pat score, and equals
    /// the stand-pat score exactly when no capture exists.
    pub fn quiescence(&mut self, board: Board, alpha: i32, beta: i32, ply: usize) -> (r: i32)
        requires
            old(self).inv(),
            -SCORE_BOUND <= alpha < beta <= SCORE_BOUND,
            ply < MAX_PLY,
        ensures
            final(self).inv(),
            *final(self) == (Bot { should_stop: final(self).should_stop, ..*old(self) }),
            old(self).should_stop ==> final(self).should_stop,
            !old(self).should_stop && final(self).should_stop ==> r == 0,
            -SCORE_BOUND <= r <= SCORE_BOUND,
            !final(self).should_stop ==> alpha <= r <= beta,
            !final(self).should_stop && eval::spec_eval(board) >= beta ==> r == beta,
            !final(self).should_stop && eval::spec_eval(board) < beta ==> r >= alpha && r
                >= eval::spec_eval(board),
            !final(self).should_stop && eval::spec_eval(board) < beta && spec_no_captures(board)
                ==> r == (if eval::spec_eval(board) > alpha {
                eval::spec_eval(board)
            } else {
                alpha as int
            }),
        decreases MAX_PLY - ply, 0int,
    {
        if self.nodes_searched % 5000 == 0 {
            self.check_time();
            if self.should_stop {
                return 0;
            }
        }
        let stand = eval::evaluate(&board);
        if stand >= beta {
            return beta;
        }
        let mut cur_alpha = alpha;
        if stand > cur_alpha {
            cur_alpha = stand;
        }
        if ply + 1 >= MAX_PLY {
            return cur_alpha;
        }
        let moves = self.sorted_moves(ply, &board, false);
        let mut i: usize = 0;
        while i < moves.len()
            invariant
                self.inv(),
                *self == (Bot { should_stop: self.should_stop, ..*old(self) }),
                self.should_stop == old(self).should_stop,
                i <= moves@.len(),
                -SCORE_BOUND <= cur_alpha < beta <= SCORE_BOUND,
                alpha <= cur_alpha,
                stand <= cur_alpha,
                stand == eval::spec_eval(board),
                stand < beta,
                spec_no_captures(board) ==> cur_alpha == (if stand > alpha {
                    stand
                } else {
                    alpha
                }),
                ply + 1 < MAX_PLY,
                forall|j: int| 0 <= j < moves@.len() ==> spec_legal_moves(board).contains(
                    #[trigger] moves@[j],
                ),
            decreases moves@.len() - i,
        {
            let m = moves[i];
            if m.capture {
                proof {
                    lemma_contained_move_ok(board, m);
                    assert(!spec_no_captures(board)) by {
                        let j = choose|j: int| 0 <= j < spec_legal_moves(board).len() && (
                        #[trigger] spec_legal_moves(board)[j]) == m;
                        assert(spec_legal_moves(board)[j].capture);
                    }
                }
                let mut b2 = board;
                b2.make_move(&m);
                let s = -self.quiescence(b2, -beta, -cur_alpha, ply + 1);
                if self.should_stop {
                    return 0;
                }
                if s >= beta {
                    return beta;
                }
                if s > cur_alpha {
                    cur_alpha = s;
                }
            }
            i = i + 1;
        }
        cur_alpha
    }


    /// Negamax alpha-beta with the transposition table, principal-
    /// variation tracking, move ordering, and a check extension. The
    /// contract pins the frames of the engine's fields, the sentinel 0
    /// of an aborting frame, the score returned on a table hit, the
    /// mate and stalemate scores when no move exists, and that a
    /// depth-0 frame stands on quiescence without touching the table.
    pub fn search(
        &mut self,
        board: Board,
        alpha: i32,
        beta: i32,
        depth: i32,
        ply: usize,
        follow_pv: bool,
    ) -> (r: i32)
        requires
            old(self).inv(),
            -SCORE_BOUND <= alpha < beta <= SCORE_BOUND,
            ply < MAX_PLY,
            depth >= 0,
        ensures
            final(self).inv(),
            -SCORE_BOUND <= r <= SCORE_BOUND,
            final(self).depth == old(self).depth,
            final(self).time == old(self).time,
            final(self).start == old(self).start,
            final(self).zobrist == old(self).zobrist,
            final(self).score == old(self).score,
            final(self).reached_depth == old(self).reached_depth,
            final(self).nodes_searched >= old(self).nodes_searched,
            old(self).nodes_searched < u64::MAX ==> final(self).nodes_searched > old(
                self,
            ).nodes_searched,
            old(self).should_stop ==> final(self).should_stop,
            !old(self).should_stop && final(self).should_stop ==> r == 0,
            depth == 0 ==> final(self).transposition_table == old(self).transposition_table
                && final(self).tt_hits == old(self).tt_hits,
            depth == 0 && !final(self).should_stop ==> alpha <= r <= beta && (eval::spec_eval(
                board,
            ) >= beta ==> r == beta),
            !final(self).should_stop && depth > 0 && ply + 1 < MAX_PLY && spec_tt_probe(
                *old(self),
                board,
                depth,
                alpha,
                beta,
            ) is Some ==> r == spec_tt_probe(*old(self), board, depth, alpha, beta)->Some_0,
            !final(self).should_stop && depth > 0 && ply + 1 < MAX_PLY && spec_tt_probe(
                *old(self),
                board,
                depth,
                alpha,
                beta,
            ) is None && spec_legal_moves(board).len() == 0 ==> r == (if board.in_check {
                -490_000 + ply as int
            } else {
                0int
            }),
        decreases MAX_PLY - ply, 1int,
    {
        if self.nodes_searched < u64::MAX {
            self.nodes_searched = self.nodes_searched + 1;
        }
        if self.nodes_searched % 5000 == 0 {
            self.check_time();
            if self.should_stop {
                return 0;
            }
        }
        self.pv_len[ply] = 1;
        if depth == 0 {
            return self.quiescence(board, alpha, beta, ply);
        }
        if ply + 1 >= MAX_PLY {
            return eval::evaluate(&board);
        }
        let hash = self.zobrist.hash(&board);
        match self.transposition_table.probe(hash, depth, alpha, beta) {
            Some(score) => {
                proof {
                    assert(spec_tt_probe(*old(self), board, depth, alpha, beta) == Some(score));
                }
                if self.tt_hits < u64::MAX {
                    self.tt_hits = self.tt_hits + 1;
                }
                return score;
            },
            None => {
                proof {
                    assert(spec_tt_probe(*old(self), board, depth, alpha, beta) is None);
                }
            },
        }
        let moves = movegen::legal_moves(&board);
        let ghost mid = *self;
        let mut follow = follow_pv;
        if follow {
            follow = false;
            let mut i: usize = 0;
            while i < moves.len()
                invariant
                    self.inv(),
                    *self == mid,
                    ply < MAX_PLY,
                    depth > 0,
                    spec_tt_probe(*old(self), board, depth, alpha, beta) is None,
                decreases moves@.len() - i,
            {
                if moves[i] == self.pv_table[ply][0] {
                    follow = true;
                    break;
                }
                i = i + 1;
            }
        }
        let sorted = self.sorted_moves(ply, &board, follow);
        if sorted.len() == 0 {
            if board.in_check {
                return -490_000 + (ply as i32);
            } else {
                return 0;
            }
        }
        let mut kind = TranspositionKind::Alpha;
        let next_depth = if board.in_check {
            depth
        } else {
            depth - 1
        };
        let mut cur_alpha = alpha;
        let mut i: usize = 0;
        while i < sorted.len()
            invariant
                self.inv(),
                i <= sorted@.len(),
                -SCORE_BOUND <= cur_alpha < beta <= SCORE_BOUND,
                alpha <= cur_alpha,
                ply + 1 < MAX_PLY,
                0 <= next_depth,
                self.depth == old(self).depth,
                self.time == old(self).time,
                self.start == old(self).start,
                self.zobrist == old(self).zobrist,
                self.score == old(self).score,
                self.reached_depth == old(self).reached_depth,
                self.nodes_searched >= old(self).nodes_searched,
                old(self).nodes_searched < u64::MAX ==> self.nodes_searched > old(
                    self,
                ).nodes_searched,
                self.should_stop == old(self).should_stop,
                depth > 0,
                spec_tt_probe(*old(self), board, depth, alpha, beta) is None,
                forall|j: int| 0 <= j < sorted@.len() ==> spec_legal_moves(board).contains(
                    #[trigger] sorted@[j],
                ),
            decreases sorted@.len() - i,
        {
            let m = sorted[i];
            proof {
                lemma_contained_move_ok(board, m);
            }
            let mut b2 = board;
            b2.make_move(&m);
            let s = -self.search(b2, -beta, -cur_alpha, next_depth, ply + 1, follow);
            if self.should_stop {
                return 0;
            }
            if s >= beta {
                self.transposition_table.store(hash, depth, beta, TranspositionKind::Beta, m);
                return beta;
            }
            if s > cur_alpha {
                kind = TranspositionKind::Exact;
                cur_alpha = s;
                self.pv_table[ply][0] = m;
                let child_len = self.pv_len[ply + 1];
                let mut k: usize = 0;
                while k < child_len
                    invariant
                        self.inv(),
                        ply + 1 < MAX_PLY,
                        child_len <= MAX_PLY - ply - 1,
                        k <= child_len,
                        self.depth == old(self).depth,
                        self.time == old(self).time,
                        self.start == old(self).start,
                        self.zobrist == old(self).zobrist,
                        self.score == old(self).score,
                        self.reached_depth == old(self).reached_depth,
                        self.nodes_searched >= old(self).nodes_searched,
                        old(self).nodes_searched < u64::MAX ==> self.nodes_searched > old(
                            self,
                        ).nodes_searched,
                        self.should_stop == old(self).should_stop,
                        depth > 0,
                        spec_tt_probe(*old(self), board, depth, alpha, beta) is None,
                    decreases child_len - k,
                {
                    let tmp = self.pv_table[ply + 1][k];
                    self.pv_table[ply][k + 1] = tmp;
                    k = k + 1;
                }
                self.pv_len[ply] = child_len + 1;
            }
            i = i + 1;
        }
        let best = self.pv_table[ply][0];
        self.transposition_table.store(hash, depth, cur_alpha, kind, best);
        cur_alpha
    }
}

impl BotTrait for Bot {
    open spec fn wf(&self) -> bool {
        self.inv()
    }

    /// Iterative deepening: the returned move is the root of the last
    /// completed iteration's principal variation whenever that move is
    /// legal, and a legal move regardless.
    fn make_move(&mut self, board: Board) -> (r: Move)
        ensures
            spec_legal_moves(board).contains(final(self).pv_table@[0]@[0])
                ==> r == final(self).pv_table@[0]@[0],
            final(self).depth == old(self).depth,
            old(self).depth >= 1 ==> 1 <= final(self).reached_depth <= old(self).depth,
            old(self).depth >= 1 && old(self).nodes_searched < u64::MAX
                ==> final(self).nodes_searched > old(self).nodes_searched,
            final(self).score == old(self).score || -SCORE_BOUND <= final(self).score
                <= SCORE_BOUND,
    {
        self.start = instant_now();
        self.should_stop = false;
        let max_depth = self.depth;
        let mut d: i32 = 1;
        while d <= max_depth
            invariant
                self.inv(),
                1 <= d,
                max_depth == old(self).depth,
                self.depth == old(self).depth,
                self.nodes_searched >= old(self).nodes_searched,
                self.score == old(self).score || -SCORE_BOUND <= self.score <= SCORE_BOUND,
                d > 1 ==> 1 <= self.reached_depth <= max_depth,
                d > 1 && old(self).nodes_searched < u64::MAX ==> self.nodes_searched > old(
                    self,
                ).nodes_searched,
            ensures
                self.inv(),
                max_depth == old(self).depth,
                self.depth == old(self).depth,
                self.score == old(self).score || -SCORE_BOUND <= self.score <= SCORE_BOUND,
                max_depth >= 1 ==> 1 <= self.reached_depth <= max_depth,
                max_depth >= 1 && old(self).nodes_searched < u64::MAX ==> self.nodes_searched
                    > old(self).nodes_searched,
            decreases max_depth + 1 - d,
        {
            let s = self.search(board, -500_000, 500_000, d, 0, true);
            self.reached_depth = d;
            if self.should_stop {
                break;
            }
            self.score = s;
            if d == i32::MAX {
                break;
            }
            d = d + 1;
        }
        let candidate = self.pv_table[0][0];
        let moves = movegen::legal_moves(&board);
        let mut i: usize = 0;
        let mut found = false;
        while i < moves.len()
            invariant
                i <= moves@.len(),
                moves@ == spec_legal_moves(board),
                candidate == self.pv_table@[0]@[0],
                self.inv(),
                self.depth == old(self).depth,
                self.score == old(self).score || -SCORE_BOUND <= self.score <= SCORE_BOUND,
                old(self).depth >= 1 ==> 1 <= self.reached_depth <= old(self).depth,
                old(self).depth >= 1 && old(self).nodes_searched < u64::MAX
                    ==> self.nodes_searched > old(self).nodes_searched,
                found ==> spec_legal_moves(board).contains(candidate),
                !found ==> forall|j: int| 0 <= j < i ==> moves@[j] != candidate,
            ensures
                moves@ == spec_legal_moves(board),
                candidate == self.pv_table@[0]@[0],
                self.inv(),
                self.depth == old(self).depth,
                self.score == old(self).score || -SCORE_BOUND <= self.score <= SCORE_BOUND,
                old(self).depth >= 1 ==> 1 <= self.reached_depth <= old(self).depth,
                old(self).depth >= 1 && old(self).nodes_searched < u64::MAX
                    ==> self.nodes_searched > old(self).nodes_searched,
                found ==> spec_legal_moves(board).contains(candidate),
                !found ==> forall|j: int| 0 <= j < moves@.len() ==> moves@[j] != candidate,
            decreases moves@.len() - i,
        {
            if moves[i] == candidate {
                found = true;
                proof {
                    assert(spec_legal_moves(board).contains(candidate)) by {
                        assert(spec_legal_moves(board)[i as int] == candidate);
                    }
                }
                break;
            }
            i = i + 1;
        }
        if found {
            candidate
        } else {
            proof {
                if spec_legal_moves(board).contains(candidate) {
                    let j = choose|j: int| 0 <= j < spec_legal_moves(board).len() && (
                    #[trigger] spec_legal_moves(board)[j]) == candidate;
                    assert(moves@[j] == candidate);
                    assert(false);
                }
                assert(!spec_legal_moves(board).contains(candidate));
            }
            let m = moves[0];
            proof {
                assert(spec_legal_moves(board).contains(m)) by {
                    assert(spec_legal_moves(board)[0] == m);
                }
            }
            m
        }
    }
}

} // verus!
