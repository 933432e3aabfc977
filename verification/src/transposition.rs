//! The transposition table: a fixed-size, direct-mapped,
//! always-replace cache of search results keyed by position hash.

use vstd::prelude::*;
use crate::moves::Move;

verus! {

/// How a stored score bounds the true value: exact, an upper bound
/// (fail-low), or a lower bound (fail-high).
#[derive(Clone, Copy, PartialEq, Eq, Structural, Debug)]
pub enum TranspositionKind {
    Exact,
    Alpha,
    Beta,
}

#[derive(Clone, Copy)]
pub struct Transposition {
    pub hash: u64,
    pub depth: i32,
    pub score: i32,
    pub kind: TranspositionKind,
    pub best_move: Move,
}

pub struct TranspositionTable {
    pub table: Vec<Transposition>,
    pub stored_cnt: usize,
}

/// The entry an empty cell holds.
pub open spec fn spec_blank_entry() -> Transposition {
    Transposition {
        hash: 0,
        depth: 0,
        score: 0,
        kind: TranspositionKind::Exact,
        best_move: Move::spec_empty(),
    }
}

/// The score a probe of `entry` under the given window yields, if any.
pub open spec fn spec_probe_entry(
    entry: Transposition,
    hash: u64,
    depth: i32,
    alpha: i32,
    beta: i32,
) -> Option<i32> {
    if entry.hash == hash && entry.depth >= depth {
        match entry.kind {
            TranspositionKind::Exact => Some(entry.score),
            TranspositionKind::Alpha => if entry.score <= alpha {
                Some(entry.score)
            } else {
                None
            },
            TranspositionKind::Beta => if entry.score >= beta {
                Some(entry.score)
            } else {
                None
            },
        }
    } else {
        None
    }
}

impl TranspositionTable {
    /// The stored entries.
    pub open spec fn spec_entries(self) -> Seq<Transposition> {
        self.table@
    }

    /// The cell a hash maps to.
    pub open spec fn spec_index_of(self, hash: u64) -> int {
        (hash as usize) as int % self.spec_entries().len() as int
    }

    pub fn size(&self) -> (r: usize)
        ensures
            r == self.spec_entries().len(),
    {
        self.table.len()
    }

    /// Allocate `entries` blank cells.
    pub fn new(entries: usize) -> (r: TranspositionTable)
        requires
            entries > 0,
        ensures
            r.spec_entries().len() == entries,
            forall|i: int| 0 <= i < entries ==> r.spec_entries()[i] == spec_blank_entry(),
            r.stored_cnt == 0,
    {
        let mut table: Vec<Transposition> = Vec::new();
        let mut i: usize = 0;
        while i < entries
            invariant
                i <= entries,
                table@.len() == i,
                forall|j: int| 0 <= j < i ==> table@[j] == spec_blank_entry(),
            decreases entries - i,
        {
            table.push(
                Transposition {
                    hash: 0,
                    depth: 0,
                    score: 0,
                    kind: TranspositionKind::Exact,
                    best_move: Move::empty(),
                },
            );
            i = i + 1;
        }
        TranspositionTable { table, stored_cnt: 0 }
    }

    /// Probe the cell the hash maps to; a score comes back only when
    /// the full hash matches, the stored depth suffices, and the bound
    /// kind agrees with the window.
    pub fn probe(&self, hash: u64, depth: i32, alpha: i32, beta: i32) -> (r: Option<i32>)
        requires
            self.spec_entries().len() > 0,
        ensures
            r == spec_probe_entry(
                self.spec_entries()[self.spec_index_of(hash)],
                hash,
                depth,
                alpha,
                beta,
            ),
    {
        let idx = hash as usize % self.table.len();
        let entry = self.table[idx];
        if entry.hash == hash && entry.depth >= depth {
            match entry.kind {
                TranspositionKind::Exact => Some(entry.score),
                TranspositionKind::Alpha => if entry.score <= alpha {
                    Some(entry.score)
                } else {
                    None
                },
                TranspositionKind::Beta => if entry.score >= beta {
                    Some(entry.score)
                } else {
                    None
                },
            }
        } else {
            None
        }
    }

    /// Replace the cell the hash maps to, whatever it held.
    pub fn store(&mut self, hash: u64, depth: i32, score: i32, kind: TranspositionKind, best_move: Move)
        requires
            old(self).spec_entries().len() > 0,
        ensures
            final(self).spec_entries() == old(self).spec_entries().update(
                old(self).spec_index_of(hash),
                Transposition { hash, depth, score, kind, best_move },
            ),
            final(self).stored_cnt == if old(self).stored_cnt < usize::MAX {
                old(self).stored_cnt + 1
            } else {
                old(self).stored_cnt as int
            },
    {
        if self.stored_cnt < usize::MAX {
            self.stored_cnt = self.stored_cnt + 1;
        }
        let idx = hash as usize % self.table.len();
        self.table[idx] = Transposition { hash, depth, score, kind, best_move };
    }
}

} // verus!
