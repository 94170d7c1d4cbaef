//! Moves: a quintuple of side, source, target, moved piece and capture.

use vstd::prelude::*;

use crate::piece::{Chess, Player};
use crate::pos::Position;

verus! {

/// One move. Building a move never validates it; equality is by all five
/// components.
#[derive(Clone, Copy, PartialEq, Eq, Structural, Debug)]
pub struct Move {
    pub player: Player,
    pub from: Position,
    pub to: Position,
    pub chess: Chess,
    pub capture: Chess,
}

impl Move {
    /// The stand-still move: not valid-shaped, used as a neutral filler.
    pub fn stay() -> (r: Move)
        ensures
            r.player == Player::Red,
            r.from == (Position { row: 0, col: 0 }),
            r.to == (Position { row: 0, col: 0 }),
            r.chess == Chess::Empty,
            r.capture == Chess::Empty,
            !r.shaped_spec(),
    {
        Move {
            player: Player::Red,
            from: Position { row: 0, col: 0 },
            to: Position { row: 0, col: 0 },
            chess: Chess::Empty,
            capture: Chess::Empty,
        }
    }

    /// A move is valid-shaped when it moves a real piece to another square.
    pub open spec fn shaped_spec(self) -> bool {
        self.chess != Chess::Empty && self.from != self.to
    }

    /// Whether the move is valid-shaped.
    pub fn is_valid(&self) -> (r: bool)
        ensures
            r == self.shaped_spec(),
    {
        self.chess != Chess::Empty && self.from != self.to
    }

    /// The same move pointed at another target square.
    pub fn with_target(&self, to: Position, capture: Chess) -> (r: Move)
        ensures
            r == (Move { to, capture, ..*self }),
    {
        Move { player: self.player, from: self.from, to, chess: self.chess, capture }
    }
}

} // verus!
