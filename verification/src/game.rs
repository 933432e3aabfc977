//! A game shell around the board: move history, the fifty-move
//! counter, and the derived game state, with the perft node counter.

use vstd::prelude::*;
use crate::attacks;
use crate::board::{move_ok, spec_make_move, Board};
use crate::bits::single_bit;
use crate::errors::EngineError;
use crate::fen::spec_from_fen;
use crate::movegen::{self, spec_legal_moves};
use crate::moves::Move;
use crate::piece::PieceKind;
use crate::search::lemma_contained_move_ok;
use vstd::string::StringSliceAdditionalSpecFns;

verus! {

#[derive(PartialEq, Eq, Structural, Clone, Copy, Debug)]
pub enum GameState {
    InProgress,
    Checkmate,
    Stalemate,
    DrawByRepetition,
    DrawByFiftyMoveRule,
    DrawByInsufficientMaterial,
}

pub struct Game {
    pub board: Board,
    pub moves: Vec<Move>,
    pub board_history: Vec<Board>,
    pub game_state: GameState,
    pub fifty_move_rule: u8,
}

/// No pawns, rooks or queens anywhere, and each side keeps at most
/// one minor piece.
pub open spec fn spec_insufficient_material(b: Board) -> bool {
    &&& b.w_pawn == 0
    &&& b.b_pawn == 0
    &&& b.w_rook == 0
    &&& b.b_rook == 0
    &&& b.w_queen == 0
    &&& b.b_queen == 0
    &&& (b.w_knight == 0 && b.w_bishop == 0 || b.w_knight == 0 && single_bit(b.w_bishop)
        || single_bit(b.w_knight) && b.w_bishop == 0)
    &&& (b.b_knight == 0 && b.b_bishop == 0 || b.b_knight == 0 && single_bit(b.b_bishop)
        || single_bit(b.b_knight) && b.b_bishop == 0)
}

fn insufficient_material(b: &Board) -> (r: bool)
    ensures
        r == spec_insufficient_material(*b),
{
    b.w_pawn == 0 && b.b_pawn == 0 && b.w_rook == 0 && b.b_rook == 0 && b.w_queen == 0
        && b.b_queen == 0 && (b.w_knight == 0 && b.w_bishop == 0 || b.w_knight == 0
        && crate::bits::is_single_bit(b.w_bishop) || crate::bits::is_single_bit(b.w_knight)
        && b.w_bishop == 0) && (b.b_knight == 0 && b.b_bishop == 0 || b.b_knight == 0
        && crate::bits::is_single_bit(b.b_bishop) || crate::bits::is_single_bit(b.b_knight)
        && b.b_bishop == 0)
}

/// How many boards of the history equal `b`.
pub open spec fn spec_count_board(history: Seq<Board>, b: Board) -> int
    decreases history.len(),
{
    if history.len() == 0 {
        0
    } else {
        spec_count_board(history.drop_last(), b) + if history.last() == b {
            1int
        } else {
            0int
        }
    }
}

/// The state the rules give a position: mate or stalemate when no
/// move exists, then the fifty-move rule, insufficient material, and
/// threefold repetition, each overriding the one before; otherwise
/// the previous state stands.
pub open spec fn spec_update_state(
    prev: GameState,
    b: Board,
    history: Seq<Board>,
    fifty: u8,
) -> GameState {
    let s1 = if spec_legal_moves(b).len() == 0 {
        if attacks::spec_in_check(b, b.side_to_move) {
            GameState::Checkmate
        } else {
            GameState::Stalemate
        }
    } else {
        prev
    };
    let s2 = if fifty >= 100 {
        GameState::DrawByFiftyMoveRule
    } else {
        s1
    };
    let s3 = if spec_insufficient_material(b) {
        GameState::DrawByInsufficientMaterial
    } else {
        s2
    };
    if spec_count_board(history, b) >= 3 {
        GameState::DrawByRepetition
    } else {
        s3
    }
}

impl Game {
    /// Open a game from a FEN position, with an empty history.
    pub fn from_fen(fen: &str) -> (r: Result<Game, EngineError>)
        ensures
            match r {
                Ok(g) => {
                    &&& spec_from_fen(fen.spec_bytes()) == Ok::<Board, int>(g.board)
                    &&& g.moves@ == Seq::<Move>::empty()
                    &&& g.board_history@ == Seq::<Board>::empty()
                    &&& g.game_state == GameState::InProgress
                    &&& g.fifty_move_rule == 0
                },
                Err(e) => {
                    &&& e matches EngineError::MalformedFen(p)
                    &&& spec_from_fen(fen.spec_bytes()) == Err::<Board, int>(p as int)
                },
            },
    {
        let board = match Board::from_fen(fen) {
            Ok(b) => b,
            Err(e) => {
                return Err(e);
            },
        };
        Ok(
            Game {
                board,
                moves: Vec::new(),
                board_history: Vec::new(),
                game_state: GameState::InProgress,
                fifty_move_rule: 0,
            },
        )
    }

    pub fn moves(&self) -> (r: Vec<Move>)
        ensures
            r@ == self.moves@,
    {
        self.moves.clone()
    }

    /// Recompute the game state from the current board, the history,
    /// and the fifty-move counter.
    pub fn update_state(&mut self)
        ensures
            *final(self) == (Game {
                game_state: spec_update_state(
                    old(self).game_state,
                    old(self).board,
                    old(self).board_history@,
                    old(self).fifty_move_rule,
                ),
                ..*old(self)
            }),
    {
        let moves = movegen::legal_moves(&self.board);
        if moves.len() == 0 {
            if attacks::in_check_for(&self.board, self.board.side_to_move) {
                self.game_state = GameState::Checkmate;
            } else {
                self.game_state = GameState::Stalemate;
            }
        }
        if self.fifty_move_rule >= 100 {
            self.game_state = GameState::DrawByFiftyMoveRule;
        }
        if insufficient_material(&self.board) {
            self.game_state = GameState::DrawByInsufficientMaterial;
        }
        let mut count: usize = 0;
        let mut i: usize = 0;
        while i < self.board_history.len()
            invariant
                i <= self.board_history@.len(),
                count <= i,
                count == spec_count_board(self.board_history@.take(i as int), self.board),
                self.board == old(self).board,
                self.board_history@ == old(self).board_history@,
            decreases self.board_history@.len() - i,
        {
            proof {
                assert(self.board_history@.take(i as int + 1).drop_last() =~= self.board_history@.take(
                    i as int,
                ));
            }
            if self.board_history[i] == self.board {
                count = count + 1;
            }
            i = i + 1;
        }
        proof {
            assert(self.board_history@.take(self.board_history@.len() as int)
                =~= self.board_history@);
        }
        if count >= 3 {
            self.game_state = GameState::DrawByRepetition;
        }
    }

    /// Play a legal move: the counter, board, history, move list and
    /// game state all advance.
    pub fn make_move(&mut self, mv: Move)
        requires
            spec_legal_moves(old(self).board).contains(mv),
        ensures
            final(self).board == spec_make_move(old(self).board, mv),
            final(self).board_history@ == old(self).board_history@.push(final(self).board),
            final(self).moves@ == old(self).moves@.push(mv),
            final(self).fifty_move_rule == (if !mv.capture && mv.piece.kind != PieceKind::Pawn {
                if old(self).fifty_move_rule < 255 {
                    old(self).fifty_move_rule + 1
                } else {
                    old(self).fifty_move_rule as int
                }
            } else {
                0
            }),
            final(self).game_state == spec_update_state(
                old(self).game_state,
                final(self).board,
                final(self).board_history@,
                final(self).fifty_move_rule,
            ),
    {
        proof {
            lemma_contained_move_ok(old(self).board, mv);
        }
        if !mv.capture && !(mv.piece.kind == PieceKind::Pawn) {
            if self.fifty_move_rule < 255 {
                self.fifty_move_rule = self.fifty_move_rule + 1;
            }
        } else {
            self.fifty_move_rule = 0;
        }
        self.board.make_move(&mv);
        let b = self.board;
        self.board_history.push(b);
        self.moves.push(mv);
        self.update_state();
    }
}

impl Default for Game {
    /// A fresh game from the starting position, with the start
    /// position already in the history.
    fn default() -> (r: Game)
        ensures
            r.board == crate::board::spec_start_pos(),
            r.moves@ == Seq::<Move>::empty(),
            r.board_history@ == seq![crate::board::spec_start_pos()],
            r.game_state == GameState::InProgress,
            r.fifty_move_rule == 0,
    {
        let mut history: Vec<Board> = Vec::new();
        history.push(Board::start_pos());
        Game {
            board: Board::start_pos(),
            moves: Vec::new(),
            board_history: history,
            game_state: GameState::InProgress,
            fifty_move_rule: 0,
        }
    }
}

/// The number a leaf count saturates to.
pub open spec fn spec_capped(n: nat) -> u64 {
    if n > u64::MAX {
        u64::MAX
    } else {
        n as u64
    }
}

/// The perft count: at depth 1 the number of legal moves, deeper the
/// sum of the counts below each legal move.
pub open spec fn spec_perft(b: Board, depth: nat) -> nat
    decreases depth, 1int, 0int,
{
    if depth <= 1 {
        spec_legal_moves(b).len()
    } else {
        spec_perft_sum(b, spec_legal_moves(b), 0, depth)
    }
}

pub open spec fn spec_perft_sum(b: Board, s: Seq<Move>, i: int, depth: nat) -> nat
    decreases depth, 0int, s.len() - i,
{
    if i < 0 || i >= s.len() || depth < 1 {
        0
    } else {
        spec_perft(spec_make_move(b, s[i]), (depth - 1) as nat) + spec_perft_sum(
            b,
            s,
            i + 1,
            depth,
        )
    }
}

/// Count the leaves of the legal-move tree, saturating at the
/// counter's ceiling.
pub fn perft(b: &Board, depth: u32) -> (r: u64)
    requires
        depth >= 1,
    ensures
        r == spec_capped(spec_perft(*b, depth as nat)),
    decreases depth,
{
    let moves = movegen::legal_moves(b);
    if depth == 1 {
        return moves.len() as u64;
    }
    let mut nodes: u64 = 0;
    let mut i: usize = 0;
    while i < moves.len()
        invariant
            depth > 1,
            i <= moves@.len(),
            moves@ == spec_legal_moves(*b),
            nodes == spec_capped(spec_perft_sum_upto(*b, moves@, i as int, depth as nat)),
        decreases moves@.len() - i,
    {
        let m = moves[i];
        proof {
            lemma_contained_move_ok(*b, moves@[i as int]);
        }
        let mut b2 = *b;
        b2.make_move(&m);
        let below = perft(&b2, depth - 1);
        proof {
            lemma_perft_sum_upto_step(*b, moves@, i as int, depth as nat);
            lemma_capped_add(
                spec_perft_sum_upto(*b, moves@, i as int, depth as nat),
                spec_perft(spec_make_move(*b, moves@[i as int]), (depth - 1) as nat),
            );
        }
        if nodes > u64::MAX - below {
            nodes = u64::MAX;
        } else {
            nodes = nodes + below;
        }
        i = i + 1;
    }
    proof {
        lemma_perft_sum_split(*b, moves@, 0, moves@.len() as int, depth as nat);
    }
    nodes
}

/// The prefix sums of the perft recursion.
pub open spec fn spec_perft_sum_upto(b: Board, s: Seq<Move>, i: int, depth: nat) -> nat
    decreases i,
{
    if i <= 0 {
        0
    } else {
        spec_perft_sum_upto(b, s, i - 1, depth) + (if i - 1 < s.len() && depth >= 1 {
            spec_perft(spec_make_move(b, s[i - 1]), (depth - 1) as nat)
        } else {
            0
        })
    }
}

proof fn lemma_perft_sum_upto_step(b: Board, s: Seq<Move>, i: int, depth: nat)
    requires
        0 <= i < s.len(),
        depth >= 1,
    ensures
        spec_perft_sum_upto(b, s, i + 1, depth) == spec_perft_sum_upto(b, s, i, depth)
            + spec_perft(spec_make_move(b, s[i]), (depth - 1) as nat),
{
}

/// The suffix recursion and the prefix sums agree on the whole list.
proof fn lemma_perft_sum_split(b: Board, s: Seq<Move>, i: int, n: int, depth: nat)
    requires
        0 <= i <= n == s.len(),
        depth >= 1,
    ensures
        spec_perft_sum_upto(b, s, n, depth) == spec_perft_sum_upto(b, s, i, depth)
            + spec_perft_sum(b, s, i, depth),
    decreases n - i,
{
    if i < n {
        lemma_perft_sum_upto_step(b, s, i, depth);
        lemma_perft_sum_split(b, s, i + 1, n, depth);
    }
}

proof fn lemma_capped_add(a: nat, b: nat)
    ensures
        spec_capped(a + b) == if spec_capped(a) > u64::MAX - spec_capped(b) {
            u64::MAX
        } else {
            (spec_capped(a) + spec_capped(b)) as u64
        },
{
}

} // verus!
