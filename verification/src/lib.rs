//! Core of a Xiangqi (Chinese chess) engine: a 9x10 board with incremental
//! Zobrist hashing and incremental material-plus-position evaluation,
//! per-piece move rules and move generation, and an iterative-deepening
//! principal-variation search with a two-tier transposition table.

pub mod board;
pub mod constant;
pub mod engine;
pub mod moves;
pub mod rules;
pub mod search;
pub mod piece;
pub mod pos;
pub mod pst;
pub mod zobrist;

pub use piece::Player;

use vstd::prelude::*;

verus! {

/// Sum of two machine-sized counters.
pub fn add(left: usize, right: usize) -> (r: usize)
    requires
        left + right <= usize::MAX,
    ensures
        r == left + right,
{
    left + right
}

} // verus!
