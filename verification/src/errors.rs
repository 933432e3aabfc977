//! Errors surfaced to callers: parse failures and bad construction
//! parameters. Search itself never fails.

use vstd::prelude::*;

verus! {

#[derive(PartialEq, Eq, Structural, Clone, Copy, Debug)]
pub enum EngineError {
    /// The FEN string is malformed; the payload is the byte index
    /// where parsing failed.
    MalformedFen(usize),
    /// The move string does not parse or names no legal move.
    MalformedMove,
    /// A zero time budget or zero table size at construction.
    OutOfRange,
}

} // verus!
