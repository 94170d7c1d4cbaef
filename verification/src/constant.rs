//! Search-wide constants.

use vstd::prelude::*;

verus! {

/// Lowest score; a mated side scores this plus its distance from the root.
pub const MIN: i32 = -99999;

/// Scores beyond this margin from zero encode forced mates.
pub const KILL: i32 = MIN + 100;

/// Highest score.
pub const MAX: i32 = 99999;

/// Slot count of the transposition table: a power of two, so the primary
/// hash is reduced by a mask.
pub const RECORD_SIZE: i32 = 0x200000;

/// Bound on the distance from the search root.
pub const MAX_DEPTH: i32 = 64;

/// The near-mate score handed to a side ruled to be perpetually checking.
pub const BAN_VALUE: i32 = 30000 - 100;

} // verus!
