//! Board coordinates and the geometric zones of the board.

use vstd::prelude::*;

use crate::piece::Player;

verus! {

pub const BOARD_WIDTH: i32 = 9;

pub const BOARD_HEIGHT: i32 = 10;

/// A coordinate on the 9x10 board: rows run 0..10 top to bottom,
/// columns 0..9 left to right.
#[derive(Clone, Copy, PartialEq, Eq, Structural, Debug)]
pub struct Position {
    pub row: i32,
    pub col: i32,
}

/// Bound on coordinate magnitudes accepted by the step helpers, so that
/// the arithmetic below stays inside `i32`. The engine only ever forms
/// coordinates a few steps off the board, so any comfortable bound serves;
/// 1000 leaves ample room while keeping every sum far from the `i32` ends.
pub open spec fn coord_ok(p: Position) -> bool {
    -1000 <= p.row <= 1000 && -1000 <= p.col <= 1000
}

impl Position {
    pub fn new(row: i32, col: i32) -> (r: Position)
        ensures
            r.row == row && r.col == col,
    {
        Position { row, col }
    }

    /// One or more steps toward row 0.
    pub fn up(&self, delta: i32) -> (r: Position)
        requires
            coord_ok(*self),
            0 <= delta <= 1000,
        ensures
            r.row == self.row - delta && r.col == self.col,
    {
        Position { row: self.row - delta, col: self.col }
    }

    /// One or more steps toward row 9.
    pub fn down(&self, delta: i32) -> (r: Position)
        requires
            coord_ok(*self),
            0 <= delta <= 1000,
        ensures
            r.row == self.row + delta && r.col == self.col,
    {
        Position { row: self.row + delta, col: self.col }
    }

    /// One or more steps toward column 0.
    pub fn left(&self, delta: i32) -> (r: Position)
        requires
            coord_ok(*self),
            0 <= delta <= 1000,
        ensures
            r.row == self.row && r.col == self.col - delta,
    {
        Position { row: self.row, col: self.col - delta }
    }

    /// One or more steps toward column 8.
    pub fn right(&self, delta: i32) -> (r: Position)
        requires
            coord_ok(*self),
            0 <= delta <= 1000,
        ensures
            r.row == self.row && r.col == self.col + delta,
    {
        Position { row: self.row, col: self.col + delta }
    }

    /// The square as seen after rotating the board half a turn.
    pub fn flip(&self) -> (r: Position)
        requires
            coord_ok(*self),
        ensures
            r.row == 9 - self.row && r.col == 8 - self.col,
    {
        Position { row: BOARD_HEIGHT - 1 - self.row, col: BOARD_WIDTH - 1 - self.col }
    }
}

pub open spec fn in_board_spec(p: Position) -> bool {
    0 <= p.row < 10 && 0 <= p.col < 9
}

/// Whether the square lies on the board.
pub fn in_board(pos: Position) -> (r: bool)
    ensures
        r == in_board_spec(pos),
{
    pos.row >= 0 && pos.row < BOARD_HEIGHT && pos.col >= 0 && pos.col < BOARD_WIDTH
}

pub open spec fn in_country_spec(row: int, player: Player) -> bool {
    let base = if player == Player::Red {
        9int
    } else {
        0int
    };
    -5 < row - base < 5
}

/// Whether a row lies strictly less than five rows from `player`'s base row,
/// that is, on `player`'s side of the river.
pub fn in_country(row: i32, player: Player) -> (r: bool)
    requires
        -1000 <= row <= 1000,
    ensures
        r == in_country_spec(row as int, player),
{
    let base_row: i32 = if player == Player::Red {
        BOARD_HEIGHT - 1
    } else {
        0
    };
    let diff: i32 = if row >= base_row {
        row - base_row
    } else {
        base_row - row
    };
    diff < BOARD_HEIGHT / 2
}

pub open spec fn in_palace_spec(p: Position, player: Player) -> bool {
    if player == Player::Black {
        0 <= p.row < 3 && 3 <= p.col < 6
    } else {
        7 <= p.row < 10 && 3 <= p.col < 6
    }
}

/// Whether the square lies inside `player`'s palace.
pub fn in_palace(pos: Position, player: Player) -> (r: bool)
    ensures
        r == in_palace_spec(pos, player),
{
    if player == Player::Black {
        pos.row >= 0 && pos.row < 3 && pos.col >= 3 && pos.col < 6
    } else {
        pos.row >= 7 && pos.row < BOARD_HEIGHT && pos.col >= 3 && pos.col < 6
    }
}

/// Flat index of an on-board square, row by row.
pub open spec fn sq_index(p: Position) -> int {
    p.row * 9 + p.col
}

/// The square with a given flat index.
pub open spec fn sq_of_index(k: int) -> Position {
    Position { row: (k / 9) as i32, col: (k % 9) as i32 }
}

pub proof fn lemma_sq_index_bijective(p: Position)
    requires
        in_board_spec(p),
    ensures
        0 <= sq_index(p) < 90,
        sq_of_index(sq_index(p)) == p,
{
    let k = sq_index(p);
    assert(k == p.row * 9 + p.col);
    assert(0 <= k < 90) by (nonlinear_arith)
        requires
            0 <= p.row < 10 && 0 <= p.col < 9 && k == p.row * 9 + p.col,
    ;
    assert(k / 9 == p.row && k % 9 == p.col) by (nonlinear_arith)
        requires
            0 <= p.row < 10 && 0 <= p.col < 9 && k == p.row * 9 + p.col,
    ;
}

pub proof fn lemma_index_sq_bijective(k: int)
    requires
        0 <= k < 90,
    ensures
        in_board_spec(sq_of_index(k)),
        sq_index(sq_of_index(k)) == k,
{
    assert(0 <= k / 9 < 10 && 0 <= k % 9 < 9 && (k / 9) * 9 + (k % 9) == k) by (nonlinear_arith)
        requires
            0 <= k < 90,
    ;
}

} // verus!
