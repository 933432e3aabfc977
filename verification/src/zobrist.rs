//! Zobrist hashing: a key table drawn once from a seeded generator,
//! and the position hash XORing the keys of every occupied square,
//! the castling rights, the en-passant file, and the side to move.

use vstd::prelude::*;
use crate::board::Board;
use crate::piece::Color;

verus! {

#[verifier::external_type_specification]
#[verifier::external_body]
pub struct ExStdRng(rand::rngs::StdRng);

/// The value at position `idx` of the stream that rand's standard
/// generator, seeded with `seed_from_u64(seed)`, yields through
/// `next_u64`. For the pinned rand version this stream is a function
/// of the seed alone.
pub uninterp spec fn rng_key(seed: u64, idx: nat) -> u64;

/// A seeded key source: rand's standard generator together with the
/// count of values already drawn.
struct KeyStream {
    rng: rand::rngs::StdRng,
    seed: Ghost<u64>,
    taken: Ghost<nat>,
}

/// Relies on rand's `SeedableRng::seed_from_u64`: for `StdRng` it
/// builds the generator state from the seed alone.
#[verifier::external_body]
fn seeded_std_rng(seed: u64) -> rand::rngs::StdRng {
    <rand::rngs::StdRng as rand::SeedableRng>::seed_from_u64(seed)
}

impl KeyStream {
    fn new(seed: u64) -> (r: KeyStream)
        ensures
            r.seed@ == seed,
            r.taken@ == 0,
    {
        KeyStream { rng: seeded_std_rng(seed), seed: Ghost(seed), taken: Ghost(0nat) }
    }

    /// Relies on rand's `RngCore::next_u64` for `StdRng`: each call
    /// yields the next value of the seeded stream, so the values drawn
    /// from a `KeyStream` are `rng_key(seed, 0)`, `rng_key(seed, 1)`,
    /// and so on. `new` is the only constructor, so `rng` is always
    /// the generator seeded with `seed`, advanced `taken` times.
    #[verifier::external_body]
    fn next(&mut self) -> (r: u64)
        ensures
            final(self).seed@ == old(self).seed@,
            final(self).taken@ == old(self).taken@ + 1,
            r == rng_key(old(self).seed@, old(self).taken@),
    {
        rand::RngCore::next_u64(&mut self.rng)
    }
}

/// Offsets of the key groups inside one seed's stream: 768 piece-
/// square keys, then 16 castling keys, 8 en-passant-file keys, and
/// the side-to-move key.
pub const CASTLING_KEYS_START: u64 = 768;

pub const EN_PASSANT_KEYS_START: u64 = 784;

pub const SIDE_KEY_INDEX: u64 = 792;

pub struct Zobrist {
    pieces: Vec<u64>,
    castling: Vec<u64>,
    en_passant: Vec<u64>,
    side: u64,
    seed: Ghost<u64>,
}

impl Zobrist {
    /// The seed this table was drawn from.
    pub closed spec fn spec_seed(self) -> u64 {
        self.seed@
    }

    /// The table holds exactly the seed's stream, group by group.
    pub closed spec fn wf(self) -> bool {
        &&& self.pieces@.len() == 768
        &&& self.castling@.len() == 16
        &&& self.en_passant@.len() == 8
        &&& forall|i: int| 0 <= i < 768 ==> self.pieces@[i] == rng_key(self.seed@, i as nat)
        &&& forall|i: int| 0 <= i < 16 ==> self.castling@[i] == rng_key(
            self.seed@,
            (CASTLING_KEYS_START + i) as nat,
        )
        &&& forall|i: int| 0 <= i < 8 ==> self.en_passant@[i] == rng_key(
            self.seed@,
            (EN_PASSANT_KEYS_START + i) as nat,
        )
        &&& self.side == rng_key(self.seed@, SIDE_KEY_INDEX as nat)
    }

    /// Draw the whole key table from the given seed.
    pub fn new(seed: u64) -> (r: Zobrist)
        ensures
            r.wf(),
            r.spec_seed() == seed,
    {
        let mut ks = KeyStream::new(seed);
        let mut pieces: Vec<u64> = Vec::new();
        let mut i: usize = 0;
        while i < 768
            invariant
                i <= 768,
                ks.seed@ == seed,
                ks.taken@ == i,
                pieces@.len() == i,
                forall|j: int| 0 <= j < i ==> pieces@[j] == rng_key(seed, j as nat),
            decreases 768 - i,
        {
            pieces.push(ks.next());
            i = i + 1;
        }
        let mut castling: Vec<u64> = Vec::new();
        let mut i: usize = 0;
        while i < 16
            invariant
                i <= 16,
                ks.seed@ == seed,
                ks.taken@ == 768 + i,
                castling@.len() == i,
                forall|j: int| 0 <= j < i ==> castling@[j] == rng_key(seed, (768 + j) as nat),
            decreases 16 - i,
        {
            castling.push(ks.next());
            i = i + 1;
        }
        let mut en_passant: Vec<u64> = Vec::new();
        let mut i: usize = 0;
        while i < 8
            invariant
                i <= 8,
                ks.seed@ == seed,
                ks.taken@ == 784 + i,
                en_passant@.len() == i,
                forall|j: int| 0 <= j < i ==> en_passant@[j] == rng_key(seed, (784 + j) as nat),
            decreases 8 - i,
        {
            en_passant.push(ks.next());
            i = i + 1;
        }
        let side = ks.next();
        Zobrist { pieces, castling, en_passant, side, seed: Ghost(seed) }
    }
}

/// The XOR of the piece-square keys of the occupied squares below `n`.
pub open spec fn spec_hash_pieces(seed: u64, b: Board, n: int) -> u64
    decreases n,
{
    if n <= 0 {
        0
    } else {
        let sq = (n - 1) as u8;
        let rest = spec_hash_pieces(seed, b, n - 1);
        match b.spec_piece_at(sq) {
            Some(p) => rest ^ rng_key(seed, (p.spec_table_index() * 64 + sq) as nat),
            None => rest,
        }
    }
}

/// The hash of a position under the given seed's key table.
pub open spec fn spec_hash(seed: u64, b: Board) -> u64 {
    let h0 = spec_hash_pieces(seed, b, 64);
    let h1 = h0 ^ rng_key(seed, (CASTLING_KEYS_START + (b.can_castle % 16)) as nat);
    let h2 = match b.en_passant {
        Some(t) => h1 ^ rng_key(seed, (EN_PASSANT_KEYS_START + (t % 8)) as nat),
        None => h1,
    };
    if b.side_to_move == Color::Black {
        h2 ^ rng_key(seed, SIDE_KEY_INDEX as nat)
    } else {
        h2
    }
}

impl Zobrist {
    /// Hash a position; equal boards hash equal under one seed.
    pub fn hash(&self, board: &Board) -> (r: u64)
        requires
            self.wf(),
        ensures
            r == spec_hash(self.spec_seed(), *board),
    {
        let mut h: u64 = 0;
        let mut sq: u8 = 0;
        while sq < 64
            invariant
                sq <= 64,
                self.wf(),
                h == spec_hash_pieces(self.spec_seed(), *board, sq as int),
            decreases 64 - sq,
        {
            match board.piece(sq) {
                Some(p) => {
                    let idx = p.table_index() as usize * 64 + sq as usize;
                    assert(p.spec_table_index() < 12);
                    h = h ^ self.pieces[idx];
                },
                None => {},
            }
            sq = sq + 1;
        }
        h = h ^ self.castling[(board.can_castle % 16) as usize];
        match board.en_passant {
            Some(t) => {
                h = h ^ self.en_passant[(t % 8) as usize];
            },
            None => {},
        }
        if board.side_to_move == Color::Black {
            h = h ^ self.side;
        }
        h
    }
}

} // verus!
