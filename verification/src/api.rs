//! The engine's outward face: FEN in, move strings and search results
//! out.

use vstd::prelude::*;
use crate::board::{spec_make_move, Board};
use crate::bot::BotTrait;
use crate::errors::EngineError;
use crate::fen::{self, spec_from_fen, spec_to_fen};
use crate::movegen::{self, spec_legal_moves};
use crate::moves::Move;
use crate::search::{lemma_contained_move_ok, Bot, MAX_PLY};
use vstd::string::StringSliceAdditionalSpecFns;

verus! {

/// ASCII bytes read as characters, one to one.
pub open spec fn spec_chars_of(s: Seq<u8>) -> Seq<char> {
    s.map_values(|b: u8| b as char)
}

/// Relies on `String::from_utf8`: a sequence of ASCII bytes decodes
/// into the same sequence of characters.
#[verifier::external_body]
fn ascii_string(v: Vec<u8>) -> (r: String)
    requires
        forall|i: int| 0 <= i < v@.len() ==> v@[i] < 128,
    ensures
        r@ == spec_chars_of(v@),
{
    String::from_utf8(v).unwrap_or_default()
}

/// Every byte of a move string is ASCII.
proof fn lemma_move_string_ascii(m: Move)
    requires
        m.from < 64,
        m.to < 64,
    ensures
        forall|i: int| 0 <= i < m.spec_string_bytes().len() ==> m.spec_string_bytes()[i] < 128,
{
    let s = m.spec_string_bytes();
    assert forall|i: int| 0 <= i < s.len() implies s[i] < 128 by {
        crate::square::lemma_mirror_involution(m.from);
        crate::square::lemma_mirror_involution(m.to);
    }
}

/// Every byte of a printed rank is ASCII.
proof fn lemma_rank_bytes_ascii(b: Board, rank: int, file: int, pending: int)
    requires
        0 <= rank < 8,
        0 <= file <= 8,
        0 <= pending <= file,
    ensures
        forall|i: int| 0 <= i < fen::spec_rank_bytes(b, rank, file, pending).len()
            ==> fen::spec_rank_bytes(b, rank, file, pending)[i] < 128,
    decreases 8 - file,
{
    let s = fen::spec_rank_bytes(b, rank, file, pending);
    if file >= 8 {
        assert forall|i: int| 0 <= i < s.len() implies s[i] < 128 by {
            assert(s[0] == (fen::DIGIT_ZERO + pending) as u8);
        }
    } else {
        match b.spec_piece_at((rank * 8 + file) as u8) {
            None => {
                lemma_rank_bytes_ascii(b, rank, file + 1, pending + 1);
                let rest = fen::spec_rank_bytes(b, rank, file + 1, pending + 1);
                assert forall|i: int| 0 <= i < s.len() implies s[i] < 128 by {
                    assert(s[i] == rest[i]);
                }
            },
            Some(p) => {
                lemma_rank_bytes_ascii(b, rank, file + 1, 0);
                let pre: Seq<u8> = if pending > 0 {
                    seq![(fen::DIGIT_ZERO + pending) as u8]
                } else {
                    Seq::empty()
                };
                let rest = fen::spec_rank_bytes(b, rank, file + 1, 0);
                assert(s == pre + seq![fen::spec_piece_letter(p)] + rest);
                assert forall|i: int| 0 <= i < s.len() implies s[i] < 128 by {
                    if i < pre.len() {
                        assert(s[i] == pre[i]);
                    } else if i == pre.len() {
                        assert(s[i] == fen::spec_piece_letter(p));
                    } else {
                        assert(s[i] == rest[i - pre.len() - 1]);
                    }
                }
            },
        }
    }
}

/// Every byte of the printed placement field is ASCII.
proof fn lemma_placement_bytes_ascii(b: Board, rank: int)
    requires
        0 <= rank < 8,
    ensures
        forall|i: int| 0 <= i < fen::spec_placement_bytes(b, rank).len()
            ==> fen::spec_placement_bytes(b, rank)[i] < 128,
    decreases rank,
{
    lemma_rank_bytes_ascii(b, rank, 0, 0);
    if rank > 0 {
        lemma_placement_bytes_ascii(b, rank - 1);
        let s1 = fen::spec_rank_bytes(b, rank, 0, 0);
        let s2 = fen::spec_placement_bytes(b, rank - 1);
        let s = fen::spec_placement_bytes(b, rank);
        assert forall|i: int| 0 <= i < s.len() implies s[i] < 128 by {
            if i < s1.len() {
                assert(s[i] == s1[i]);
            } else if i == s1.len() {
                assert(s[i] == fen::SLASH);
            } else {
                assert(s[i] == s2[i - s1.len() - 1]);
            }
        }
    }
}

/// Every byte of a printed FEN is ASCII.
proof fn lemma_fen_ascii(b: Board)
    ensures
        forall|i: int| 0 <= i < spec_to_fen(b).len() ==> spec_to_fen(b)[i] < 128,
{
    lemma_placement_bytes_ascii(b, 7);
}

impl Board {
    /// Print the position as a FEN string.
    pub fn to_fen(&self) -> (r: String)
        ensures
            r@ == spec_chars_of(spec_to_fen(*self)),
    {
        let bytes = self.to_fen_bytes();
        proof {
            lemma_fen_ascii(*self);
        }
        ascii_string(bytes)
    }
}

impl Move {
    /// The move's coordinate notation as a string.
    pub fn string(&self) -> (r: String)
        requires
            self.from < 64,
            self.to < 64,
        ensures
            r@ == spec_chars_of(self.spec_string_bytes()),
    {
        let bytes = self.string_bytes();
        proof {
            lemma_move_string_ascii(*self);
        }
        ascii_string(bytes)
    }
}

/// The move strings of every legal move of a FEN position.
pub fn legal_moves_from_fen(fen_str: &str) -> (r: Result<Vec<String>, EngineError>)
    ensures
        match r {
            Ok(v) => {
                &&& spec_from_fen(fen_str.spec_bytes()) matches Ok(b)
                &&& v@.len() == spec_legal_moves(b).len()
                &&& forall|i: int| 0 <= i < v@.len() ==> (#[trigger] v@[i])@ == spec_chars_of(
                    spec_legal_moves(b)[i].spec_string_bytes(),
                )
            },
            Err(e) => {
                &&& e matches EngineError::MalformedFen(p)
                &&& spec_from_fen(fen_str.spec_bytes()) == Err::<Board, int>(p as int)
            },
        },
{
    let board = match Board::from_fen(fen_str) {
        Ok(b) => b,
        Err(e) => {
            return Err(e);
        },
    };
    let moves = movegen::legal_moves(&board);
    let mut out: Vec<String> = Vec::new();
    let mut i: usize = 0;
    while i < moves.len()
        invariant
            i <= moves@.len(),
            moves@ == spec_legal_moves(board),
            out@.len() == i,
            forall|j: int| 0 <= j < i ==> (#[trigger] out@[j])@ == spec_chars_of(
                spec_legal_moves(board)[j].spec_string_bytes(),
            ),
        decreases moves@.len() - i,
    {
        let m = moves[i];
        proof {
            lemma_contained_move_ok(board, moves@[i as int]);
        }
        out.push(m.string());
        i = i + 1;
    }
    Ok(out)
}

/// The first legal move whose string is `s`, scanning from `i`.
pub open spec fn spec_find_move(moves: Seq<Move>, i: int, s: Seq<u8>) -> Option<Move>
    decreases moves.len() - i,
{
    if i < 0 || i >= moves.len() {
        None
    } else if moves[i].spec_string_bytes() == s {
        Some(moves[i])
    } else {
        spec_find_move(moves, i + 1, s)
    }
}

/// The position after playing the move the string names, when it
/// names a legal one.
pub open spec fn spec_apply_move(b: Board, s: Seq<u8>) -> Option<Board> {
    match spec_find_move(spec_legal_moves(b), 0, s) {
        Some(m) => Some(spec_make_move(b, m)),
        None => None,
    }
}

fn bytes_match(a: &Vec<u8>, b: &[u8]) -> (r: bool)
    ensures
        r == (a@ == b@),
{
    if a.len() != b.len() {
        assert(a@ != b@) by {
            assert(a@.len() != b@.len());
        }
        return false;
    }
    let mut i: usize = 0;
    while i < a.len()
        invariant
            i <= a@.len(),
            a@.len() == b@.len(),
            forall|j: int| 0 <= j < i ==> a@[j] == b@[j],
        decreases a@.len() - i,
    {
        if a[i] != b[i] {
            return false;
        }
        i = i + 1;
    }
    proof {
        assert(a@ =~= b@);
    }
    true
}

/// Play the move a coordinate string names; a string naming no legal
/// move is refused.
pub fn apply_move(board: &Board, mstr: &str) -> (r: Result<Board, EngineError>)
    ensures
        match r {
            Ok(b2) => spec_apply_move(*board, mstr.spec_bytes()) == Some(b2),
            Err(e) => e == EngineError::MalformedMove && spec_apply_move(
                *board,
                mstr.spec_bytes(),
            ).is_none(),
        },
{
    let target = mstr.as_bytes();
    let moves = movegen::legal_moves(board);
    let mut i: usize = 0;
    while i < moves.len()
        invariant
            i <= moves@.len(),
            moves@ == spec_legal_moves(*board),
            spec_find_move(moves@, 0, target@) == spec_find_move(moves@, i as int, target@),
            target@ == mstr.spec_bytes(),
        decreases moves@.len() - i,
    {
        let m = moves[i];
        proof {
            lemma_contained_move_ok(*board, moves@[i as int]);
        }
        let s = m.string_bytes();
        if bytes_match(&s, target) {
            let mut b2 = *board;
            b2.make_move(&m);
            return Ok(b2);
        }
        i = i + 1;
    }
    Err(EngineError::MalformedMove)
}

/// What a search hands back: the chosen move, how much was searched,
/// the score, the depth reached, and the principal variation as move
/// strings.
pub struct BestMove {
    pub best_move: Move,
    pub nodes_searched: u64,
    pub score: i32,
    pub depth_reached: i32,
    pub pv: Vec<String>,
}

/// Package a finished search: the engine's counters and score as it
/// recorded them, and the root row of its principal-variation table
/// as move strings (an out-of-range placeholder prints empty).
pub fn search_report(bot: &Bot, chosen: Move) -> (bm: BestMove)
    requires
        bot.inv(),
    ensures
        bm.best_move == chosen,
        bm.nodes_searched == bot.nodes_searched,
        bm.score == bot.score,
        bm.depth_reached == bot.reached_depth,
        bm.pv@.len() == bot.pv_len@[0],
        forall|i: int| 0 <= i < bm.pv@.len() ==> (#[trigger] bm.pv@[i])@ == (if bot.pv_table@[0]@[i].from
            < 64 && bot.pv_table@[0]@[i].to < 64 {
            spec_chars_of(bot.pv_table@[0]@[i].spec_string_bytes())
        } else {
            Seq::<char>::empty()
        }),
{
    let mut pv: Vec<String> = Vec::new();
    let pv_count = bot.pv_len[0];
    let mut i: usize = 0;
    while i < pv_count
        invariant
            bot.inv(),
            pv_count == bot.pv_len@[0],
            pv_count <= MAX_PLY,
            i <= pv_count,
            pv@.len() == i,
            forall|j: int| 0 <= j < i ==> (#[trigger] pv@[j])@ == (if bot.pv_table@[0]@[j].from
                < 64 && bot.pv_table@[0]@[j].to < 64 {
                spec_chars_of(bot.pv_table@[0]@[j].spec_string_bytes())
            } else {
                Seq::<char>::empty()
            }),
        decreases pv_count - i,
    {
        let m = bot.pv_table[0][i];
        if m.from < 64 && m.to < 64 {
            pv.push(m.string());
        } else {
            pv.push(String::new());
        }
        i = i + 1;
    }
    BestMove {
        best_move: chosen,
        nodes_searched: bot.nodes_searched,
        score: bot.score,
        depth_reached: bot.reached_depth,
        pv,
    }
}

/// Search a FEN position. A malformed FEN or a zero parameter is
/// refused; a position without legal moves yields no move; otherwise
/// the chosen move is legal, the reached depth lies within the asked
/// depth, at least one node was searched, and the score is in band.
pub fn best_move(fen_str: &str, max_depth: i32, tt_entries: usize, time_ms: u64) -> (r: Result<
    Option<BestMove>,
    EngineError,
>)
    ensures
        match r {
            Ok(opt) => {
                &&& spec_from_fen(fen_str.spec_bytes()) matches Ok(b)
                &&& tt_entries > 0
                &&& time_ms > 0
                &&& (match opt {
                    Some(bm) => {
                        &&& spec_legal_moves(b).contains(bm.best_move)
                        &&& bm.pv@.len() <= MAX_PLY
                        &&& -crate::search::SCORE_BOUND <= bm.score <= crate::search::SCORE_BOUND
                        &&& (max_depth >= 1 ==> 1 <= bm.depth_reached <= max_depth
                            && bm.nodes_searched >= 1)
                    },
                    None => spec_legal_moves(b).len() == 0,
                })
            },
            Err(e) => match e {
                EngineError::MalformedFen(p) => spec_from_fen(fen_str.spec_bytes()) == Err::<
                    Board,
                    int,
                >(p as int),
                EngineError::OutOfRange => tt_entries == 0 || time_ms == 0,
                EngineError::MalformedMove => false,
            },
        },
{
    let board = match Board::from_fen(fen_str) {
        Ok(b) => b,
        Err(e) => {
            return Err(e);
        },
    };
    let mut bot = match Bot::new(max_depth, tt_entries, time_ms) {
        Ok(b) => b,
        Err(e) => {
            return Err(e);
        },
    };
    let moves = movegen::legal_moves(&board);
    if moves.len() == 0 {
        return Ok(None);
    }
    let chosen = bot.make_move(board);
    Ok(Some(search_report(&bot, chosen)))
}

} // verus!
