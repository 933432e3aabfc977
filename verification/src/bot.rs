//! The bot abstraction: anything that picks a legal move for a
//! position, and a baseline that picks one at random.

use vstd::prelude::*;
use crate::board::Board;
use crate::movegen::{self, spec_legal_moves};
use crate::moves::Move;

verus! {

/// A move chooser: handed a position with at least one legal move, it
/// returns one of them.
pub trait BotTrait {
    spec fn wf(&self) -> bool;

    fn make_move(&mut self, board: Board) -> (r: Move)
        requires
            old(self).wf(),
            spec_legal_moves(board).len() > 0,
        ensures
            final(self).wf(),
            spec_legal_moves(board).contains(r),
    ;
}

/// Relies on rand's `Rng::gen_range` over `0..n`: the result lies
/// below `n`.
#[verifier::external_body]
fn random_below(n: usize) -> (r: usize)
    requires
        n > 0,
    ensures
        r < n,
{
    rand::Rng::gen_range(&mut rand::thread_rng(), 0..n)
}

/// A uniformly random legal move.
pub fn bot_move(board: &Board) -> (r: Move)
    requires
        spec_legal_moves(*board).len() > 0,
    ensures
        spec_legal_moves(*board).contains(r),
{
    let moves = movegen::legal_moves(board);
    let i = random_below(moves.len());
    let m = moves[i];
    proof {
        assert(spec_legal_moves(*board).contains(m)) by {
            assert(spec_legal_moves(*board)[i as int] == m);
        }
    }
    m
}

} // verus!
