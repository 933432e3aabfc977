//! Core of a bitboard chess engine: board representation, legal move
//! generation, FEN handling, Zobrist hashing, a transposition table, a
//! material-and-placement evaluator, and an iterative-deepening
//! alpha-beta search.

pub mod api;
pub mod attacks;
pub mod bits;
pub mod board;
pub mod bot;
pub mod errors;
pub mod eval;
pub mod fen;
pub mod game;
pub mod laws;
pub mod movegen;
pub mod moves;
pub mod piece;
pub mod search;
pub mod square;
pub mod transposition;
pub mod zobrist;
