//! Pieces, piece kinds and the two players.

use vstd::prelude::*;

verus! {

/// The side to move: Red moves first and sits at the bottom of the board.
#[derive(Clone, Copy, PartialEq, Eq, Structural, Debug)]
pub enum Player {
    Red,
    Black,
}

impl Player {
    /// Index of the player: 0 for Red, 1 for Black.
    pub fn value(&self) -> (r: i32)
        ensures
            r == self.index_spec(),
    {
        if self == &Player::Red {
            0
        } else {
            1
        }
    }

    pub open spec fn index_spec(self) -> int {
        if self == Player::Red {
            0
        } else {
            1
        }
    }

    /// The opposing player.
    pub fn next(&self) -> (r: Player)
        ensures
            r == self.next_spec(),
    {
        if self == &Player::Red {
            Player::Black
        } else {
            Player::Red
        }
    }

    pub open spec fn next_spec(self) -> Player {
        if self == Player::Red {
            Player::Black
        } else {
            Player::Red
        }
    }
}

/// The seven piece kinds of Xiangqi.
#[derive(Clone, Copy, PartialEq, Eq, Structural, Debug)]
pub enum ChessType {
    King,
    Advisor,
    Bishop,
    Knight,
    Rook,
    Cannon,
    Pawn,
}

impl ChessType {
    /// Index of the kind, used to address the Zobrist key tables.
    pub fn value(&self) -> (r: i32)
        ensures
            r == self.index_spec(),
    {
        match self {
            ChessType::King => 0,
            ChessType::Advisor => 1,
            ChessType::Bishop => 2,
            ChessType::Knight => 3,
            ChessType::Rook => 4,
            ChessType::Cannon => 5,
            ChessType::Pawn => 6,
        }
    }

    pub open spec fn index_spec(self) -> int {
        match self {
            ChessType::King => 0,
            ChessType::Advisor => 1,
            ChessType::Bishop => 2,
            ChessType::Knight => 3,
            ChessType::Rook => 4,
            ChessType::Cannon => 5,
            ChessType::Pawn => 6,
        }
    }

    /// Material value of the kind; the King carries a sentinel value.
    pub fn material_value(&self) -> (r: i32)
        ensures
            r == self.material_spec(),
    {
        match self {
            ChessType::King => 10000,
            ChessType::Advisor => 20,
            ChessType::Bishop => 20,
            ChessType::Knight => 90,
            ChessType::Rook => 200,
            ChessType::Cannon => 100,
            ChessType::Pawn => 10,
        }
    }

    pub open spec fn material_spec(self) -> int {
        match self {
            ChessType::King => 10000,
            ChessType::Advisor => 20,
            ChessType::Bishop => 20,
            ChessType::Knight => 90,
            ChessType::Rook => 200,
            ChessType::Cannon => 100,
            ChessType::Pawn => 10,
        }
    }

    /// Alias of the material value.
    pub fn type_value(&self) -> (r: i32)
        ensures
            r == self.material_spec(),
    {
        self.material_value()
    }

    pub open spec fn move_value_spec(self) -> int {
        match self {
            ChessType::King => 1,
            ChessType::Advisor => 2,
            ChessType::Bishop => 2,
            ChessType::Knight => 5,
            ChessType::Rook => 6,
            ChessType::Cannon => 4,
            ChessType::Pawn => 3,
        }
    }

    /// Rough mobility rank of the kind, used by interface layers.
    pub fn move_value(&self) -> (r: i32)
        ensures
            r == self.move_value_spec(),
    {
        match self {
            ChessType::King => 1,
            ChessType::Advisor => 2,
            ChessType::Bishop => 2,
            ChessType::Knight => 5,
            ChessType::Rook => 6,
            ChessType::Cannon => 4,
            ChessType::Pawn => 3,
        }
    }
}

/// A square's content: a piece of one side, or empty.
#[derive(Clone, Copy, PartialEq, Eq, Structural, Debug)]
pub enum Chess {
    Black(ChessType),
    Red(ChessType),
    Empty,
}

impl Chess {
    pub open spec fn chess_type_spec(self) -> Option<ChessType> {
        match self {
            Chess::Black(ct) => Some(ct),
            Chess::Red(ct) => Some(ct),
            Chess::Empty => None,
        }
    }

    pub open spec fn player_spec(self) -> Option<Player> {
        match self {
            Chess::Black(_) => Some(Player::Black),
            Chess::Red(_) => Some(Player::Red),
            Chess::Empty => None,
        }
    }

    pub open spec fn belongs_spec(self, player: Player) -> bool {
        self.player_spec() == Some(player)
    }

    /// The kind of the piece, if the square is not empty.
    pub fn chess_type(&self) -> (r: Option<ChessType>)
        ensures
            r == self.chess_type_spec(),
    {
        match self {
            Chess::Black(ct) => Some(*ct),
            Chess::Red(ct) => Some(*ct),
            Chess::Empty => None,
        }
    }

    /// The owner of the piece, if the square is not empty.
    pub fn player(&self) -> (r: Option<Player>)
        ensures
            r == self.player_spec(),
    {
        match self {
            Chess::Black(_) => Some(Player::Black),
            Chess::Red(_) => Some(Player::Red),
            Chess::Empty => None,
        }
    }

    /// Whether the square holds a piece of `player`.
    pub fn belong_to(&self, player: Player) -> (r: bool)
        ensures
            r == self.belongs_spec(player),
    {
        match self {
            Chess::Black(_) => player == Player::Black,
            Chess::Red(_) => player == Player::Red,
            Chess::Empty => false,
        }
    }

    /// Index of the piece's kind; 0 for an empty square.
    pub fn value(&self) -> (r: i32)
        ensures
            r == match self.chess_type_spec() {
                Some(ct) => ct.index_spec(),
                None => 0,
            },
    {
        match self.chess_type() {
            Some(ct) => ct.value(),
            None => 0,
        }
    }

    pub open spec fn material_of_spec(self) -> int {
        match self.chess_type_spec() {
            Some(ct) => ct.material_spec(),
            None => 0,
        }
    }

    /// Material value of the piece on the square; 0 for an empty square.
    pub fn material_value(&self) -> (r: i32)
        ensures
            r == self.material_of_spec(),
    {
        match self.chess_type() {
            Some(ct) => ct.material_value(),
            None => 0,
        }
    }
}

} // verus!
