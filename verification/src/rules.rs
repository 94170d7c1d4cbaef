//! Move rules: pseudo-legality of a single move, per-piece target
//! enumeration, the full move generator, check detection by running the
//! attack geometry backwards from the King's square, and full legality.

use vstd::prelude::*;

use crate::board::{
    apply_grid_spec, apply_ok_spec, count_between_spec, eye_to_eye_spec, grid_at, king_pos_spec,
    lemma_col_occ_pair, lemma_col_occ_pos, lemma_col_occ_single, lemma_col_occ_zero,
    lemma_row_occ_pair, lemma_row_occ_pos, lemma_row_occ_single, lemma_row_occ_zero, Board,
};
use crate::moves::Move;
use crate::piece::{Chess, ChessType, Player};
use crate::pos::{
    in_board, in_board_spec, in_country, in_country_spec, in_palace, in_palace_spec,
    lemma_sq_index_bijective, sq_index, sq_of_index, Position, BOARD_HEIGHT, BOARD_WIDTH,
};

verus! {

pub open spec fn iabs(x: int) -> int {
    if x >= 0 {
        x
    } else {
        -x
    }
}

/// The geometric rule of one piece kind for a move from `f` to `t`, path
/// and screen constraints included, zone filters included.
pub open spec fn piece_geometry_spec(
    g: Seq<Chess>,
    turn: Player,
    ct: ChessType,
    f: Position,
    t: Position,
) -> bool {
    let rd = iabs(t.row - f.row);
    let cd = iabs(t.col - f.col);
    match ct {
        ChessType::King => in_palace_spec(t, turn) && rd + cd == 1,
        ChessType::Advisor => in_palace_spec(t, turn) && rd == 1 && cd == 1,
        ChessType::Bishop => in_country_spec(t.row as int, turn) && rd == 2 && cd == 2 && grid_at(
            g,
            Position { row: ((f.row + t.row) / 2) as i32, col: ((f.col + t.col) / 2) as i32 },
        ) == Chess::Empty,
        ChessType::Knight => (rd == 1 && cd == 2 && grid_at(
            g,
            Position { row: f.row, col: ((f.col + t.col) / 2) as i32 },
        ) == Chess::Empty) || (rd == 2 && cd == 1 && grid_at(
            g,
            Position { row: ((f.row + t.row) / 2) as i32, col: f.col },
        ) == Chess::Empty),
        ChessType::Rook => (rd == 0 || cd == 0) && count_between_spec(g, f, t) == 0,
        ChessType::Cannon => (rd == 0 || cd == 0) && (if grid_at(g, t) == Chess::Empty {
            count_between_spec(g, f, t) == 0
        } else {
            count_between_spec(g, f, t) == 1
        }),
        ChessType::Pawn => {
            let fwd: int = if turn == Player::Red {
                -1
            } else {
                1
            };
            (t.row == f.row + fwd && cd == 0) || (!in_country_spec(f.row as int, turn) && rd == 0
                && cd == 1)
        },
    }
}

/// Pseudo-legality of an arbitrary move for the side to move: real squares,
/// a friendly piece on the source, no friendly piece on the target, and the
/// piece kind's geometry.
pub open spec fn valid_move_spec(g: Seq<Chess>, turn: Player, m: Move) -> bool {
    &&& in_board_spec(m.from)
    &&& in_board_spec(m.to)
    &&& m.from != m.to
    &&& grid_at(g, m.from).belongs_spec(turn)
    &&& !grid_at(g, m.to).belongs_spec(turn)
    &&& match grid_at(g, m.from).chess_type_spec() {
        Some(ct) => piece_geometry_spec(g, turn, ct, m.from, m.to),
        None => false,
    }
}

impl Board {
    /// Whether an arbitrary (possibly garbage) move is pseudo-legal for the
    /// side to move. The move's own `chess` and `capture` fields are not
    /// consulted: the board is.
    pub fn is_valid_move(&self, mv: &Move) -> (r: bool)
        requires
            self.chesses@.len() == 90,
        ensures
            r == valid_move_spec(self.chesses@, self.turn, *mv),
    {
        let from = mv.from;
        let to = mv.to;
        if !in_board(from) || !in_board(to) || (from.row == to.row && from.col == to.col) {
            return false;
        }
        let from_chess = self.chess_at(from);
        if !from_chess.belong_to(self.turn) {
            return false;
        }
        let to_chess = self.chess_at(to);
        if to_chess.belong_to(self.turn) {
            return false;
        }
        let row_diff: i32 = if to.row >= from.row {
            to.row - from.row
        } else {
            from.row - to.row
        };
        let col_diff: i32 = if to.col >= from.col {
            to.col - from.col
        } else {
            from.col - to.col
        };
        match from_chess.chess_type() {
            Some(ct) => match ct {
                ChessType::King => in_palace(to, self.turn) && (row_diff + col_diff == 1),
                ChessType::Advisor => in_palace(to, self.turn) && (row_diff == 1 && col_diff == 1),
                ChessType::Bishop => in_country(to.row, self.turn) && row_diff == 2 && col_diff
                    == 2 && self.chess_at(
                    Position { row: (from.row + to.row) / 2, col: (from.col + to.col) / 2 },
                ) == Chess::Empty,
                ChessType::Knight => {
                    if row_diff == 1 && col_diff == 2 {
                        self.chess_at(Position { row: from.row, col: (from.col + to.col) / 2 })
                            == Chess::Empty
                    } else if row_diff == 2 && col_diff == 1 {
                        self.chess_at(Position { row: (from.row + to.row) / 2, col: from.col })
                            == Chess::Empty
                    } else {
                        false
                    }
                },
                ChessType::Rook => {
                    if row_diff == 0 || col_diff == 0 {
                        self.count_chess_between(from, to) == 0
                    } else {
                        false
                    }
                },
                ChessType::Cannon => {
                    if row_diff == 0 || col_diff == 0 {
                        let count = self.count_chess_between(from, to);
                        if to_chess == Chess::Empty {
                            count == 0
                        } else {
                            count == 1
                        }
                    } else {
                        false
                    }
                },
                ChessType::Pawn => {
                    let forward: i32 = if self.turn == Player::Red {
                        -1
                    } else {
                        1
                    };
                    if to.row == from.row + forward && col_diff == 0 {
                        true
                    } else {
                        !in_country(from.row, self.turn) && row_diff == 0 && col_diff == 1
                    }
                },
            },
            None => false,
        }
    }
}

/// What the move's completion against the board looks like: the side to
/// move as mover, and the true source and target pieces filled in.
pub open spec fn complete_move_spec(g: Seq<Chess>, turn: Player, m: Move) -> Move {
    Move { player: turn, from: m.from, to: m.to, chess: grid_at(g, m.from), capture: grid_at(g, m.to) }
}

/// Full legality: the completed move is pseudo-legal, and after applying it
/// the mover's King is not attacked.
pub open spec fn legal_move_spec(g: Seq<Chess>, turn: Player, m: Move) -> bool {
    let cm = complete_move_spec(g, turn, m);
    &&& valid_move_spec(g, turn, cm)
    &&& !checked_spec(apply_grid_spec(g, cm), turn)
}

impl Board {
    /// Whether a move is fully legal: pseudo-legal, and applying it does
    /// not leave the mover's own King attacked.
    pub fn is_move_legal(&self, m: &Move) -> (r: bool)
        requires
            self.wf(),
        ensures
            r == legal_move_spec(self.chesses@, self.turn, *m),
    {
        let cm = Move {
            player: self.turn,
            from: m.from,
            to: m.to,
            chess: self.chess_at(m.from),
            capture: self.chess_at(m.to),
        };
        if !self.is_valid_move(&cm) {
            return false;
        }
        let mut temp_board = self.duplicate();
        temp_board.apply_move(&cm);
        !temp_board.is_checked(self.turn)
    }
}

/// Whether the enemy piece on flat square `i` attacks the square `k` as a
/// Rook, Cannon or Knight, by the same geometry the move rules use; the
/// Knight's blocking square is taken next to `k`, as the reverse run of the
/// target generator has it.
pub open spec fn attack_from_spec(g: Seq<Chess>, player: Player, k: Position, i: int) -> bool {
    let p = sq_of_index(i);
    let c = grid_at(g, p);
    let rd = iabs(p.row - k.row);
    let cd = iabs(p.col - k.col);
    c.belongs_spec(player.next_spec()) && match c.chess_type_spec() {
        Some(ChessType::Rook) => (p.row == k.row || p.col == k.col) && !(p == k)
            && count_between_spec(g, k, p) == 0,
        Some(ChessType::Cannon) => (p.row == k.row || p.col == k.col) && !(p == k)
            && count_between_spec(g, k, p) == 1,
        Some(ChessType::Knight) => (rd == 2 && cd == 1 && grid_at(
            g,
            Position { row: ((k.row + p.row) / 2) as i32, col: k.col },
        ) == Chess::Empty) || (rd == 1 && cd == 2 && grid_at(
            g,
            Position { row: k.row, col: ((k.col + p.col) / 2) as i32 },
        ) == Chess::Empty),
        _ => false,
    }
}

/// Whether an enemy Pawn stands one step beside the King, or one step ahead
/// of it in the enemy's marching direction.
pub open spec fn pawn_check_spec(g: Seq<Chess>, player: Player, k: Position) -> bool {
    let ahead = if player == Player::Red {
        Position { row: (k.row - 1) as i32, col: k.col }
    } else {
        Position { row: (k.row + 1) as i32, col: k.col }
    };
    ||| enemy_pawn_at(g, player, Position { row: k.row, col: (k.col - 1) as i32 })
    ||| enemy_pawn_at(g, player, Position { row: k.row, col: (k.col + 1) as i32 })
    ||| enemy_pawn_at(g, player, ahead)
}

pub open spec fn enemy_pawn_at(g: Seq<Chess>, player: Player, p: Position) -> bool {
    grid_at(g, p).belongs_spec(player.next_spec()) && grid_at(g, p).chess_type_spec() == Some(
        ChessType::Pawn,
    )
}

/// Whether `player` is in check: the King is missing, or some enemy Rook,
/// Cannon, Knight or Pawn attacks its square, or the two Kings face each
/// other on an open column.
pub open spec fn checked_spec(g: Seq<Chess>, player: Player) -> bool {
    match king_pos_spec(g, player) {
        None => true,
        Some(k) => {
            ||| exists|i: int| 0 <= i < 90 && attack_from_spec(g, player, k, i)
            ||| pawn_check_spec(g, player, k)
            ||| eye_to_eye_spec(g)
        },
    }
}

impl Board {
    /// Whether an enemy Pawn on `p` checks `player`.
    fn enemy_pawn_on(&self, player: Player, p: Position) -> (r: bool)
        requires
            self.chesses@.len() == 90,
        ensures
            r == enemy_pawn_at(self.chesses@, player, p),
    {
        let c = self.chess_at(p);
        c.belong_to(player.next()) && match c.chess_type() {
            Some(ChessType::Pawn) => true,
            _ => false,
        }
    }

    /// Whether `player`'s King is attacked, or missing from its palace.
    pub fn is_checked(&self, player: Player) -> (r: bool)
        requires
            self.chesses@.len() == 90,
        ensures
            r == checked_spec(self.chesses@, player),
    {
        let position_base = match self.king_position(player) {
            Some(pos) => pos,
            None => {
                return true;
            }
        };
        let ghost g = self.chesses@;
        let ghost k = position_base;
        let mut idx: usize = 0;
        while idx < 90
            invariant
                self.chesses@.len() == 90,
                g == self.chesses@,
                0 <= idx <= 90,
                king_pos_spec(g, player) == Some(k),
                in_board_spec(k),
                position_base == k,
                forall|i: int| 0 <= i < idx ==> !attack_from_spec(g, player, k, i),
            decreases 90 - idx,
        {
            let row: i32 = (idx / 9) as i32;
            let col: i32 = (idx % 9) as i32;
            let p = Position { row, col };
            proof {
                crate::pos::lemma_index_sq_bijective(idx as int);
                assert(p == sq_of_index(idx as int));
            }
            let c = self.chess_at(p);
            let mut hit = false;
            if c.belong_to(player.next()) {
                let rd: i32 = if p.row >= position_base.row {
                    p.row - position_base.row
                } else {
                    position_base.row - p.row
                };
                let cd: i32 = if p.col >= position_base.col {
                    p.col - position_base.col
                } else {
                    position_base.col - p.col
                };
                match c.chess_type() {
                    Some(ChessType::Rook) => {
                        if (p.row == position_base.row || p.col == position_base.col) && !(p.row == position_base.row && p.col
                            == position_base.col) {
                            hit = self.count_chess_between(position_base, p) == 0;
                        }
                    },
                    Some(ChessType::Cannon) => {
                        if (p.row == position_base.row || p.col == position_base.col) && !(p.row == position_base.row && p.col
                            == position_base.col) {
                            hit = self.count_chess_between(position_base, p) == 1;
                        }
                    },
                    Some(ChessType::Knight) => {
                        if rd == 2 && cd == 1 {
                            hit = self.chess_at(
                                Position { row: (position_base.row + p.row) / 2, col: position_base.col },
                            ) == Chess::Empty;
                        } else if rd == 1 && cd == 2 {
                            hit = self.chess_at(
                                Position { row: position_base.row, col: (position_base.col + p.col) / 2 },
                            ) == Chess::Empty;
                        }
                    },
                    _ => {
                    },
                }
            }
            if hit {
                proof {
                    assert(attack_from_spec(g, player, k, idx as int));
                }
                return true;
            }
            proof {
                assert(!attack_from_spec(g, player, k, idx as int));
            }
            idx = idx + 1;
        }
        if self.enemy_pawn_on(player, Position { row: position_base.row, col: position_base.col - 1 }) {
            return true;
        }
        if self.enemy_pawn_on(player, Position { row: position_base.row, col: position_base.col + 1 }) {
            return true;
        }
        let ahead = if player == Player::Red {
            Position { row: position_base.row - 1, col: position_base.col }
        } else {
            Position { row: position_base.row + 1, col: position_base.col }
        };
        if self.enemy_pawn_on(player, ahead) {
            return true;
        }
        self.king_eye_to_eye()
    }
}

/// Pushing keeps everything a sequence already holds, and adds the new
/// element.
pub proof fn lemma_contains_after_push<T>(s: Seq<T>, x: T)
    ensures
        forall|y: T| s.contains(y) ==> #[trigger] s.push(x).contains(y),
        s.push(x).contains(x),
{
    assert(s.push(x)[s.len() as int] == x);
    assert forall|y: T| s.contains(y) implies #[trigger] s.push(x).contains(y) by {
        let i = choose|i: int| 0 <= i < s.len() && s[i] == y;
        assert(s.push(x)[i] == y);
    }
}

/// Pushes a candidate target, keeping every earlier one in reach.
fn push_target(targets: &mut Vec<Position>, t: Position)
    ensures
        final(targets)@ == old(targets)@.push(t),
        final(targets)@.contains(t),
        forall|y: Position| old(targets)@.contains(y) ==> #[trigger] final(targets)@.contains(y),
{
    let ghost pre = targets@;
    targets.push(t);
    proof {
        lemma_contains_after_push(pre, t);
    }
}

/// What the target generator guarantees of each emitted target: the piece
/// kind's geometry and path constraints, before the zone and own-piece
/// filters that the full generator applies.
pub open spec fn target_pre_spec(
    g: Seq<Chess>,
    turn: Player,
    ct: ChessType,
    f: Position,
    t: Position,
) -> bool {
    let rd = iabs(t.row - f.row);
    let cd = iabs(t.col - f.col);
    match ct {
        ChessType::King => rd + cd == 1,
        ChessType::Advisor => rd == 1 && cd == 1,
        ChessType::Bishop => rd == 2 && cd == 2 && grid_at(
            g,
            Position { row: ((f.row + t.row) / 2) as i32, col: ((f.col + t.col) / 2) as i32 },
        ) == Chess::Empty,
        ChessType::Knight => (rd == 1 && cd == 2 && grid_at(
            g,
            Position { row: f.row, col: ((f.col + t.col) / 2) as i32 },
        ) == Chess::Empty) || (rd == 2 && cd == 1 && grid_at(
            g,
            Position { row: ((f.row + t.row) / 2) as i32, col: f.col },
        ) == Chess::Empty),
        ChessType::Rook => (rd == 0 || cd == 0) && !(t == f) && count_between_spec(g, f, t) == 0,
        ChessType::Cannon => (rd == 0 || cd == 0) && !(t == f) && (if grid_at(g, t)
            == Chess::Empty {
            count_between_spec(g, f, t) == 0
        } else {
            count_between_spec(g, f, t) == 1
        }),
        ChessType::Pawn => {
            let fwd: int = if turn == Player::Red {
                -1
            } else {
                1
            };
            (t.row == f.row + fwd && cd == 0) || (!in_country_spec(f.row as int, turn) && rd == 0
                && cd == 1)
        },
    }
}

impl Board {
    /// Enumerates candidate target squares for a piece of kind `ct`
    /// standing on `position_base`. Every emitted target satisfies the
    /// kind's geometry and path constraints, and every on-board square
    /// satisfying them is emitted; zone and own-piece filters are the
    /// caller's.
    pub fn generate_move_for_chess_type(&self, ct: ChessType, position_base: Position) -> (r: Vec<
        Position,
    >)
        requires
            self.chesses@.len() == 90,
            in_board_spec(position_base),
        ensures
            forall|i: int|
                0 <= i < r.len() ==> target_pre_spec(
                    self.chesses@,
                    self.turn,
                    ct,
                    position_base,
                    #[trigger] r@[i],
                ),
            forall|t: Position|
                in_board_spec(t) && #[trigger] target_pre_spec(
                    self.chesses@,
                    self.turn,
                    ct,
                    position_base,
                    t,
                ) ==> r@.contains(t),
    {
        let ghost g = self.chesses@;
        let ghost turn = self.turn;
        let f = position_base;
        let mut targets: Vec<Position> = Vec::new();
        match ct {
            ChessType::King => {
                push_target(&mut targets, f.up(1));
                push_target(&mut targets, f.down(1));
                push_target(&mut targets, f.left(1));
                push_target(&mut targets, f.right(1));
                proof {
                    assert forall|t: Position|
                        in_board_spec(t) && #[trigger] target_pre_spec(
                            g,
                            turn,
                            ChessType::King,
                            f,
                            t,
                        ) implies targets@.contains(t) by {
                        assert(t == (Position { row: (f.row - 1) as i32, col: f.col }) || t == (
                        Position { row: (f.row + 1) as i32, col: f.col }) || t == (Position {
                            row: f.row,
                            col: (f.col - 1) as i32,
                        }) || t == (Position { row: f.row, col: (f.col + 1) as i32 }));
                    }
                }
            },
            ChessType::Advisor => {
                push_target(&mut targets, f.up(1).left(1));
                push_target(&mut targets, f.up(1).right(1));
                push_target(&mut targets, f.down(1).left(1));
                push_target(&mut targets, f.down(1).right(1));
                proof {
                    assert forall|t: Position|
                        in_board_spec(t) && #[trigger] target_pre_spec(
                            g,
                            turn,
                            ChessType::Advisor,
                            f,
                            t,
                        ) implies targets@.contains(t) by {
                        assert(t == (Position { row: (f.row - 1) as i32, col: (f.col - 1) as i32 })
                            || t == (Position { row: (f.row - 1) as i32, col: (f.col + 1) as i32 })
                            || t == (Position { row: (f.row + 1) as i32, col: (f.col - 1) as i32 })
                            || t == (Position { row: (f.row + 1) as i32, col: (f.col + 1) as i32 }));
                    }
                }
            },
            ChessType::Bishop => {
                if self.chess_at(f.up(1).left(1)) == Chess::Empty {
                    push_target(&mut targets, f.up(2).left(2));
                }
                if self.chess_at(f.up(1).right(1)) == Chess::Empty {
                    push_target(&mut targets, f.up(2).right(2));
                }
                if self.chess_at(f.down(1).left(1)) == Chess::Empty {
                    push_target(&mut targets, f.down(2).left(2));
                }
                if self.chess_at(f.down(1).right(1)) == Chess::Empty {
                    push_target(&mut targets, f.down(2).right(2));
                }
                proof {
                    assert forall|t: Position|
                        in_board_spec(t) && #[trigger] target_pre_spec(
                            g,
                            turn,
                            ChessType::Bishop,
                            f,
                            t,
                        ) implies targets@.contains(t) by {
                        assert(t == (Position { row: (f.row - 2) as i32, col: (f.col - 2) as i32 })
                            || t == (Position { row: (f.row - 2) as i32, col: (f.col + 2) as i32 })
                            || t == (Position { row: (f.row + 2) as i32, col: (f.col - 2) as i32 })
                            || t == (Position { row: (f.row + 2) as i32, col: (f.col + 2) as i32 }));
                    }
                }
            },
            ChessType::Knight => {
                if self.chess_at(f.up(1)) == Chess::Empty {
                    push_target(&mut targets, f.up(2).left(1));
                    push_target(&mut targets, f.up(2).right(1));
                }
                if self.chess_at(f.down(1)) == Chess::Empty {
                    push_target(&mut targets, f.down(2).left(1));
                    push_target(&mut targets, f.down(2).right(1));
                }
                if self.chess_at(f.left(1)) == Chess::Empty {
                    push_target(&mut targets, f.up(1).left(2));
                    push_target(&mut targets, f.down(1).left(2));
                }
                if self.chess_at(f.right(1)) == Chess::Empty {
                    push_target(&mut targets, f.up(1).right(2));
                    push_target(&mut targets, f.down(1).right(2));
                }
                proof {
                    assert forall|t: Position|
                        in_board_spec(t) && #[trigger] target_pre_spec(
                            g,
                            turn,
                            ChessType::Knight,
                            f,
                            t,
                        ) implies targets@.contains(t) by {
                        let rd = iabs(t.row - f.row);
                        let cd = iabs(t.col - f.col);
                        if rd == 2 {
                            assert(t.row == f.row - 2 || t.row == f.row + 2);
                            assert(t.col == f.col - 1 || t.col == f.col + 1);
                        } else {
                            assert(t.row == f.row - 1 || t.row == f.row + 1);
                            assert(t.col == f.col - 2 || t.col == f.col + 2);
                        }
                    }
                }
            },
            ChessType::Rook => {
                self.rook_scan(f, &mut targets);
            },
            ChessType::Cannon => {
                self.cannon_scan(f, &mut targets);
            },
            ChessType::Pawn => {
                if !in_country(f.row, self.turn) {
                    push_target(&mut targets, f.left(1));
                    push_target(&mut targets, f.right(1));
                }
                if self.turn == Player::Black {
                    push_target(&mut targets, f.down(1));
                } else {
                    push_target(&mut targets, f.up(1));
                }
                proof {
                    assert forall|t: Position|
                        in_board_spec(t) && #[trigger] target_pre_spec(
                            g,
                            turn,
                            ChessType::Pawn,
                            f,
                            t,
                        ) implies targets@.contains(t) by {
                        let fwd: int = if turn == Player::Red {
                            -1
                        } else {
                            1
                        };
                        assert(t == (Position { row: (f.row + fwd) as i32, col: f.col }) || t == (
                        Position { row: f.row, col: (f.col - 1) as i32 }) || t == (Position {
                            row: f.row,
                            col: (f.col + 1) as i32,
                        }));
                    }
                }
            },
        }
        targets
    }

    /// Slides from `f` in all four directions, stopping at the first piece,
    /// which is included. The emitted squares are exactly the on-board
    /// squares with a clear path from `f` along a rank or file.
    #[verifier::rlimit(100)]
    fn rook_scan(&self, f: Position, targets: &mut Vec<Position>)
        requires
            self.chesses@.len() == 90,
            in_board_spec(f),
            old(targets)@.len() == 0,
        ensures
            forall|i: int|
                0 <= i < final(targets)@.len() ==> target_pre_spec(
                    self.chesses@,
                    self.turn,
                    ChessType::Rook,
                    f,
                    #[trigger] final(targets)@[i],
                ),
            forall|t: Position|
                in_board_spec(t) && #[trigger] target_pre_spec(
                    self.chesses@,
                    self.turn,
                    ChessType::Rook,
                    f,
                    t,
                ) ==> final(targets)@.contains(t),
    {
        let ghost g = self.chesses@;
        let mut delta: i32 = 1;
        let mut blocked = false;
        while delta <= f.row && !blocked
            invariant
                self.chesses@.len() == 90,
                g == self.chesses@,
                in_board_spec(f),
                1 <= delta <= f.row + 1,
                !blocked ==> forall|j: int|
                    f.row - delta < j < f.row ==> #[trigger] g[j * 9 + f.col] == Chess::Empty,
                blocked ==> 2 <= delta && 0 <= f.row - (delta - 1) && g[(f.row - (delta - 1)) * 9
                    + f.col] != Chess::Empty,
                forall|d: int|
                    1 <= d < delta ==> #[trigger] targets@.contains(
                        Position { row: (f.row - d) as i32, col: f.col },
                    ),
                forall|i: int|
                    0 <= i < targets@.len() ==> target_pre_spec(
                        g,
                        self.turn,
                        ChessType::Rook,
                        f,
                        #[trigger] targets@[i],
                    ),
            decreases f.row + 1 - delta,
        {
            let t = f.up(delta);
            proof {
                lemma_sq_index_bijective(t);
                lemma_col_occ_zero(g, f.col as int, t.row + 1, f.row as int);
            }
            push_target(targets, t);
            if self.chess_at(t) != Chess::Empty {
                blocked = true;
            }
            delta = delta + 1;
        }
        proof {
            assert forall|t: Position|
                in_board_spec(t) && t.col == f.col && t.row < f.row && count_between_spec(g, f, t)
                    == 0 implies targets@.contains(t) by {
                let d = f.row - t.row;
                if d >= delta {
                    assert(blocked);
                    lemma_col_occ_pos(
                        g,
                        f.col as int,
                        t.row + 1,
                        f.row as int,
                        f.row - (delta - 1),
                    );
                } else {
                    assert(targets@.contains(Position { row: (f.row - d) as i32, col: f.col }));
                    assert(t == (Position { row: (f.row - d) as i32, col: f.col }));
                }
            }
        }
        let mut delta: i32 = 1;
        let mut blocked = false;
        while delta <= 9 - f.row && !blocked
            invariant
                self.chesses@.len() == 90,
                g == self.chesses@,
                in_board_spec(f),
                1 <= delta <= 10 - f.row,
                !blocked ==> forall|j: int|
                    f.row < j < f.row + delta ==> #[trigger] g[j * 9 + f.col] == Chess::Empty,
                blocked ==> 2 <= delta && f.row + (delta - 1) <= 9 && g[(f.row + (delta - 1)) * 9
                    + f.col] != Chess::Empty,
                forall|d: int|
                    1 <= d < delta ==> #[trigger] targets@.contains(
                        Position { row: (f.row + d) as i32, col: f.col },
                    ),
                forall|t: Position|
                    in_board_spec(t) && t.col == f.col && t.row < f.row && count_between_spec(
                        g,
                        f,
                        t,
                    ) == 0 ==> #[trigger] targets@.contains(t),
                forall|i: int|
                    0 <= i < targets@.len() ==> target_pre_spec(
                        g,
                        self.turn,
                        ChessType::Rook,
                        f,
                        #[trigger] targets@[i],
                    ),
            decreases 10 - f.row - delta,
        {
            let t = f.down(delta);
            proof {
                lemma_sq_index_bijective(t);
                lemma_col_occ_zero(g, f.col as int, f.row + 1, t.row as int);
            }
            push_target(targets, t);
            if self.chess_at(t) != Chess::Empty {
                blocked = true;
            }
            delta = delta + 1;
        }
        proof {
            assert forall|t: Position|
                in_board_spec(t) && t.col == f.col && t.row > f.row && count_between_spec(g, f, t)
                    == 0 implies targets@.contains(t) by {
                let d = t.row - f.row;
                if d >= delta {
                    assert(blocked);
                    lemma_col_occ_pos(
                        g,
                        f.col as int,
                        f.row + 1,
                        t.row as int,
                        f.row + (delta - 1),
                    );
                } else {
                    assert(targets@.contains(Position { row: (f.row + d) as i32, col: f.col }));
                    assert(t == (Position { row: (f.row + d) as i32, col: f.col }));
                }
            }
        }
        let mut delta: i32 = 1;
        let mut blocked = false;
        while delta <= f.col && !blocked
            invariant
                self.chesses@.len() == 90,
                g == self.chesses@,
                in_board_spec(f),
                1 <= delta <= f.col + 1,
                !blocked ==> forall|j: int|
                    f.col - delta < j < f.col ==> #[trigger] g[f.row * 9 + j] == Chess::Empty,
                blocked ==> 2 <= delta && 0 <= f.col - (delta - 1) && g[f.row * 9 + (f.col - (delta
                    - 1))] != Chess::Empty,
                forall|d: int|
                    1 <= d < delta ==> #[trigger] targets@.contains(
                        Position { row: f.row, col: (f.col - d) as i32 },
                    ),
                forall|t: Position|
                    in_board_spec(t) && t.col == f.col && t.row != f.row && count_between_spec(
                        g,
                        f,
                        t,
                    ) == 0 ==> #[trigger] targets@.contains(t),
                forall|i: int|
                    0 <= i < targets@.len() ==> target_pre_spec(
                        g,
                        self.turn,
                        ChessType::Rook,
                        f,
                        #[trigger] targets@[i],
                    ),
            decreases f.col + 1 - delta,
        {
            let t = f.left(delta);
            proof {
                lemma_sq_index_bijective(t);
                lemma_row_occ_zero(g, f.row as int, t.col + 1, f.col as int);
            }
            push_target(targets, t);
            if self.chess_at(t) != Chess::Empty {
                blocked = true;
            }
            delta = delta + 1;
        }
        proof {
            assert forall|t: Position|
                in_board_spec(t) && t.row == f.row && t.col < f.col && count_between_spec(g, f, t)
                    == 0 implies targets@.contains(t) by {
                let d = f.col - t.col;
                if d >= delta {
                    assert(blocked);
                    lemma_row_occ_pos(
                        g,
                        f.row as int,
                        t.col + 1,
                        f.col as int,
                        f.col - (delta - 1),
                    );
                } else {
                    assert(targets@.contains(Position { row: f.row, col: (f.col - d) as i32 }));
                    assert(t == (Position { row: f.row, col: (f.col - d) as i32 }));
                }
            }
        }
        let mut delta: i32 = 1;
        let mut blocked = false;
        while delta <= 8 - f.col && !blocked
            invariant
                self.chesses@.len() == 90,
                g == self.chesses@,
                in_board_spec(f),
                1 <= delta <= 9 - f.col,
                !blocked ==> forall|j: int|
                    f.col < j < f.col + delta ==> #[trigger] g[f.row * 9 + j] == Chess::Empty,
                blocked ==> 2 <= delta && f.col + (delta - 1) <= 8 && g[f.row * 9 + (f.col + (delta
                    - 1))] != Chess::Empty,
                forall|d: int|
                    1 <= d < delta ==> #[trigger] targets@.contains(
                        Position { row: f.row, col: (f.col + d) as i32 },
                    ),
                forall|t: Position|
                    in_board_spec(t) && t.col == f.col && t.row != f.row && count_between_spec(
                        g,
                        f,
                        t,
                    ) == 0 ==> #[trigger] targets@.contains(t),
                forall|t: Position|
                    in_board_spec(t) && t.row == f.row && t.col < f.col && count_between_spec(
                        g,
                        f,
                        t,
                    ) == 0 ==> #[trigger] targets@.contains(t),
                forall|i: int|
                    0 <= i < targets@.len() ==> target_pre_spec(
                        g,
                        self.turn,
                        ChessType::Rook,
                        f,
                        #[trigger] targets@[i],
                    ),
            decreases 9 - f.col - delta,
        {
            let t = f.right(delta);
            proof {
                lemma_sq_index_bijective(t);
                lemma_row_occ_zero(g, f.row as int, f.col + 1, t.col as int);
            }
            push_target(targets, t);
            if self.chess_at(t) != Chess::Empty {
                blocked = true;
            }
            delta = delta + 1;
        }
        proof {
            assert forall|t: Position|
                in_board_spec(t) && t.row == f.row && t.col > f.col && count_between_spec(g, f, t)
                    == 0 implies targets@.contains(t) by {
                let d = t.col - f.col;
                if d >= delta {
                    assert(blocked);
                    lemma_row_occ_pos(
                        g,
                        f.row as int,
                        f.col + 1,
                        t.col as int,
                        f.col + (delta - 1),
                    );
                } else {
                    assert(targets@.contains(Position { row: f.row, col: (f.col + d) as i32 }));
                    assert(t == (Position { row: f.row, col: (f.col + d) as i32 }));
                }
            }
            assert forall|t: Position|
                in_board_spec(t) && #[trigger] target_pre_spec(
                    g,
                    self.turn,
                    ChessType::Rook,
                    f,
                    t,
                ) implies targets@.contains(t) by {
            }
        }
    }

    /// Slides from `f` in all four directions: clear squares up to the
    /// first piece (the screen) are quiet targets, and the first piece
    /// after the screen is a capture target. The emitted squares are
    /// exactly the on-board aligned squares a cannon may go to.
    #[verifier::rlimit(100)]
    fn cannon_scan(&self, f: Position, targets: &mut Vec<Position>)
        requires
            self.chesses@.len() == 90,
            in_board_spec(f),
            old(targets)@.len() == 0,
        ensures
            forall|i: int|
                0 <= i < final(targets)@.len() ==> target_pre_spec(
                    self.chesses@,
                    self.turn,
                    ChessType::Cannon,
                    f,
                    #[trigger] final(targets)@[i],
                ),
            forall|t: Position|
                in_board_spec(t) && #[trigger] target_pre_spec(
                    self.chesses@,
                    self.turn,
                    ChessType::Cannon,
                    f,
                    t,
                ) ==> final(targets)@.contains(t),
    {
        let ghost g = self.chesses@;
        let mut delta: i32 = 1;
        let mut has_chess = false;
        let mut blocked = false;
        let ghost mut s: int = 0;
        let ghost mut cap: int = 0;
        while delta <= f.row && !blocked
            invariant
                self.chesses@.len() == 90,
                g == self.chesses@,
                in_board_spec(f),
                1 <= delta <= f.row + 1,
                !blocked && !has_chess ==> forall|j: int|
                    f.row - delta < j < f.row ==> #[trigger] g[j * 9 + f.col] == Chess::Empty,
                !blocked && !has_chess ==> forall|dd: int|
                    1 <= dd < delta ==> #[trigger] targets@.contains(Position { row: (f.row - dd) as i32, col: f.col }),
                !blocked && has_chess ==> f.row - delta < s < f.row && g[s * 9 + f.col] != Chess::Empty && forall|
                    j: int,
                |
                    f.row - delta < j < f.row && j != s ==> #[trigger] g[j * 9 + f.col] == Chess::Empty,
                !blocked && has_chess ==> forall|dd: int|
                    1 <= dd < f.row - s ==> #[trigger] targets@.contains(Position { row: (f.row - dd) as i32, col: f.col }),
                blocked ==> (cap < s) && (f.row - delta < s < f.row) && 0 <= cap && g[s * 9 + f.col]
                    != Chess::Empty && g[cap * 9 + f.col] != Chess::Empty && (forall|j: int|
                    (cap < j) && (j < f.row) && j != s
                        ==> #[trigger] g[j * 9 + f.col] == Chess::Empty) && targets@.contains(
                    Position { row: (cap) as i32, col: f.col },
                ) && (forall|dd: int|
                    1 <= dd < f.row - s ==> #[trigger] targets@.contains(Position { row: (f.row - dd) as i32, col: f.col })),
                forall|i: int|
                    0 <= i < targets@.len() ==> target_pre_spec(
                        g,
                        self.turn,
                        ChessType::Cannon,
                        f,
                        #[trigger] targets@[i],
                    ),
            decreases f.row + 1 - delta,
        {
            let t = f.up(delta);
            proof {
                lemma_sq_index_bijective(t);
            }
            if !has_chess {
                if self.chess_at(t) != Chess::Empty {
                    has_chess = true;
                    proof {
                        s = t.row as int;
                    }
                } else {
                    proof {
                        lemma_col_occ_zero(g, f.col as int, t.row + 1, f.row as int);
                    }
                    push_target(targets, t);
                }
            } else {
                if self.chess_at(t) != Chess::Empty {
                    proof {
                        lemma_col_occ_single(g, f.col as int, t.row + 1, f.row as int, s);
                        cap = t.row as int;
                    }
                    push_target(targets, t);
                    blocked = true;
                }
            }
            delta = delta + 1;
        }
        proof {
            assert forall|t: Position|
                in_board_spec(t) && t.col == f.col && t.row < f.row && ((
                grid_at(g, t) == Chess::Empty && count_between_spec(g, f, t) == 0) || (grid_at(g, t)
                    != Chess::Empty && count_between_spec(g, f, t) == 1)) implies targets@.contains(
                t,
            ) by {
                lemma_sq_index_bijective(t);
                let d = f.row - t.row;
                if !has_chess && !blocked {
                    assert(g[t.row as int * 9 + f.col] == Chess::Empty);
                    assert(targets@.contains(Position { row: (f.row - d) as i32, col: f.col }));
                    assert(t == (Position { row: (f.row - d) as i32, col: f.col }));
                } else if !blocked {
                    if g[t.row as int * 9 + f.col] == Chess::Empty {
                        if t.row < s {
                            lemma_col_occ_pos(g, f.col as int, t.row + 1, f.row as int, s);
                        }
                        assert(t.row > s);
                        assert(targets@.contains(Position { row: (f.row - d) as i32, col: f.col }));
                        assert(t == (Position { row: (f.row - d) as i32, col: f.col }));
                    } else {
                        assert(t.row == s);
                        lemma_col_occ_zero(g, f.col as int, t.row + 1, f.row as int);
                    }
                } else {
                    if g[t.row as int * 9 + f.col] == Chess::Empty {
                        if t.row < s {
                            lemma_col_occ_pos(g, f.col as int, t.row + 1, f.row as int, s);
                        }
                        assert(t.row > s);
                        assert(targets@.contains(Position { row: (f.row - d) as i32, col: f.col }));
                        assert(t == (Position { row: (f.row - d) as i32, col: f.col }));
                    } else {
                        if t.row == cap {
                            assert(t == (Position { row: (cap) as i32, col: f.col }));
                        } else if t.row == s {
                            lemma_col_occ_zero(g, f.col as int, t.row + 1, f.row as int);
                        } else if t.row < cap {
                            lemma_col_occ_pair(g, f.col as int, t.row + 1, f.row as int, cap, s);
                        }
                    }
                }
            }
        }
        let mut delta: i32 = 1;
        let mut has_chess = false;
        let mut blocked = false;
        let ghost mut s: int = 0;
        let ghost mut cap: int = 0;
        while delta <= 9 - f.row && !blocked
            invariant
                self.chesses@.len() == 90,
                g == self.chesses@,
                in_board_spec(f),
                forall|t: Position|
                    in_board_spec(t) && t.col == f.col && t.row < f.row && ((grid_at(g, t) == Chess::Empty && count_between_spec(g, f, t) == 0) || (grid_at(g, t) != Chess::Empty && count_between_spec(g, f, t) == 1)) ==> #[trigger] targets@.contains(t),
                1 <= delta <= 10 - f.row,
                !blocked && !has_chess ==> forall|j: int|
                    f.row < j < f.row + delta ==> #[trigger] g[j * 9 + f.col] == Chess::Empty,
                !blocked && !has_chess ==> forall|dd: int|
                    1 <= dd < delta ==> #[trigger] targets@.contains(Position { row: (f.row + dd) as i32, col: f.col }),
                !blocked && has_chess ==> f.row < s < f.row + delta && g[s * 9 + f.col] != Chess::Empty && forall|
                    j: int,
                |
                    f.row < j < f.row + delta && j != s ==> #[trigger] g[j * 9 + f.col] == Chess::Empty,
                !blocked && has_chess ==> forall|dd: int|
                    1 <= dd < s - f.row ==> #[trigger] targets@.contains(Position { row: (f.row + dd) as i32, col: f.col }),
                blocked ==> (s < cap) && (f.row < s < f.row + delta) && cap <= 9 && g[s * 9 + f.col]
                    != Chess::Empty && g[cap * 9 + f.col] != Chess::Empty && (forall|j: int|
                    (f.row < j) && (j < cap) && j != s
                        ==> #[trigger] g[j * 9 + f.col] == Chess::Empty) && targets@.contains(
                    Position { row: (cap) as i32, col: f.col },
                ) && (forall|dd: int|
                    1 <= dd < s - f.row ==> #[trigger] targets@.contains(Position { row: (f.row + dd) as i32, col: f.col })),
                forall|i: int|
                    0 <= i < targets@.len() ==> target_pre_spec(
                        g,
                        self.turn,
                        ChessType::Cannon,
                        f,
                        #[trigger] targets@[i],
                    ),
            decreases 10 - f.row - delta,
        {
            let t = f.down(delta);
            proof {
                lemma_sq_index_bijective(t);
            }
            if !has_chess {
                if self.chess_at(t) != Chess::Empty {
                    has_chess = true;
                    proof {
                        s = t.row as int;
                    }
                } else {
                    proof {
                        lemma_col_occ_zero(g, f.col as int, f.row + 1, t.row as int);
                    }
                    push_target(targets, t);
                }
            } else {
                if self.chess_at(t) != Chess::Empty {
                    proof {
                        lemma_col_occ_single(g, f.col as int, f.row + 1, t.row as int, s);
                        cap = t.row as int;
                    }
                    push_target(targets, t);
                    blocked = true;
                }
            }
            delta = delta + 1;
        }
        proof {
            assert forall|t: Position|
                in_board_spec(t) && t.col == f.col && t.row > f.row && ((
                grid_at(g, t) == Chess::Empty && count_between_spec(g, f, t) == 0) || (grid_at(g, t)
                    != Chess::Empty && count_between_spec(g, f, t) == 1)) implies targets@.contains(
                t,
            ) by {
                lemma_sq_index_bijective(t);
                let d = t.row - f.row;
                if !has_chess && !blocked {
                    assert(g[t.row as int * 9 + f.col] == Chess::Empty);
                    assert(targets@.contains(Position { row: (f.row + d) as i32, col: f.col }));
                    assert(t == (Position { row: (f.row + d) as i32, col: f.col }));
                } else if !blocked {
                    if g[t.row as int * 9 + f.col] == Chess::Empty {
                        if t.row > s {
                            lemma_col_occ_pos(g, f.col as int, f.row + 1, t.row as int, s);
                        }
                        assert(t.row < s);
                        assert(targets@.contains(Position { row: (f.row + d) as i32, col: f.col }));
                        assert(t == (Position { row: (f.row + d) as i32, col: f.col }));
                    } else {
                        assert(t.row == s);
                        lemma_col_occ_zero(g, f.col as int, f.row + 1, t.row as int);
                    }
                } else {
                    if g[t.row as int * 9 + f.col] == Chess::Empty {
                        if t.row > s {
                            lemma_col_occ_pos(g, f.col as int, f.row + 1, t.row as int, s);
                        }
                        assert(t.row < s);
                        assert(targets@.contains(Position { row: (f.row + d) as i32, col: f.col }));
                        assert(t == (Position { row: (f.row + d) as i32, col: f.col }));
                    } else {
                        if t.row == cap {
                            assert(t == (Position { row: (cap) as i32, col: f.col }));
                        } else if t.row == s {
                            lemma_col_occ_zero(g, f.col as int, f.row + 1, t.row as int);
                        } else if t.row > cap {
                            lemma_col_occ_pair(g, f.col as int, f.row + 1, t.row as int, s, cap);
                        }
                    }
                }
            }
        }
        let mut delta: i32 = 1;
        let mut has_chess = false;
        let mut blocked = false;
        let ghost mut s: int = 0;
        let ghost mut cap: int = 0;
        while delta <= f.col && !blocked
            invariant
                self.chesses@.len() == 90,
                g == self.chesses@,
                in_board_spec(f),
                forall|t: Position|
                    in_board_spec(t) && t.col == f.col && t.row < f.row && ((grid_at(g, t) == Chess::Empty && count_between_spec(g, f, t) == 0) || (grid_at(g, t) != Chess::Empty && count_between_spec(g, f, t) == 1)) ==> #[trigger] targets@.contains(t),
                forall|t: Position|
                    in_board_spec(t) && t.col == f.col && t.row > f.row && ((grid_at(g, t) == Chess::Empty && count_between_spec(g, f, t) == 0) || (grid_at(g, t) != Chess::Empty && count_between_spec(g, f, t) == 1)) ==> #[trigger] targets@.contains(t),
                1 <= delta <= f.col + 1,
                !blocked && !has_chess ==> forall|j: int|
                    f.col - delta < j < f.col ==> #[trigger] g[f.row * 9 + j] == Chess::Empty,
                !blocked && !has_chess ==> forall|dd: int|
                    1 <= dd < delta ==> #[trigger] targets@.contains(Position { row: f.row, col: (f.col - dd) as i32 }),
                !blocked && has_chess ==> f.col - delta < s < f.col && g[f.row * 9 + s] != Chess::Empty && forall|
                    j: int,
                |
                    f.col - delta < j < f.col && j != s ==> #[trigger] g[f.row * 9 + j] == Chess::Empty,
                !blocked && has_chess ==> forall|dd: int|
                    1 <= dd < f.col - s ==> #[trigger] targets@.contains(Position { row: f.row, col: (f.col - dd) as i32 }),
                blocked ==> (cap < s) && (f.col - delta < s < f.col) && 0 <= cap && g[f.row * 9 + s]
                    != Chess::Empty && g[f.row * 9 + cap] != Chess::Empty && (forall|j: int|
                    (cap < j) && (j < f.col) && j != s
                        ==> #[trigger] g[f.row * 9 + j] == Chess::Empty) && targets@.contains(
                    Position { row: f.row, col: (cap) as i32 },
                ) && (forall|dd: int|
                    1 <= dd < f.col - s ==> #[trigger] targets@.contains(Position { row: f.row, col: (f.col - dd) as i32 })),
                forall|i: int|
                    0 <= i < targets@.len() ==> target_pre_spec(
                        g,
                        self.turn,
                        ChessType::Cannon,
                        f,
                        #[trigger] targets@[i],
                    ),
            decreases f.col + 1 - delta,
        {
            let t = f.left(delta);
            proof {
                lemma_sq_index_bijective(t);
            }
            if !has_chess {
                if self.chess_at(t) != Chess::Empty {
                    has_chess = true;
                    proof {
                        s = t.col as int;
                    }
                } else {
                    proof {
                        lemma_row_occ_zero(g, f.row as int, t.col + 1, f.col as int);
                    }
                    push_target(targets, t);
                }
            } else {
                if self.chess_at(t) != Chess::Empty {
                    proof {
                        lemma_row_occ_single(g, f.row as int, t.col + 1, f.col as int, s);
                        cap = t.col as int;
                    }
                    push_target(targets, t);
                    blocked = true;
                }
            }
            delta = delta + 1;
        }
        proof {
            assert forall|t: Position|
                in_board_spec(t) && t.row == f.row && t.col < f.col && ((
                grid_at(g, t) == Chess::Empty && count_between_spec(g, f, t) == 0) || (grid_at(g, t)
                    != Chess::Empty && count_between_spec(g, f, t) == 1)) implies targets@.contains(
                t,
            ) by {
                lemma_sq_index_bijective(t);
                let d = f.col - t.col;
                if !has_chess && !blocked {
                    assert(g[f.row * 9 + t.col as int] == Chess::Empty);
                    assert(targets@.contains(Position { row: f.row, col: (f.col - d) as i32 }));
                    assert(t == (Position { row: f.row, col: (f.col - d) as i32 }));
                } else if !blocked {
                    if g[f.row * 9 + t.col as int] == Chess::Empty {
                        if t.col < s {
                            lemma_row_occ_pos(g, f.row as int, t.col + 1, f.col as int, s);
                        }
                        assert(t.col > s);
                        assert(targets@.contains(Position { row: f.row, col: (f.col - d) as i32 }));
                        assert(t == (Position { row: f.row, col: (f.col - d) as i32 }));
                    } else {
                        assert(t.col == s);
                        lemma_row_occ_zero(g, f.row as int, t.col + 1, f.col as int);
                    }
                } else {
                    if g[f.row * 9 + t.col as int] == Chess::Empty {
                        if t.col < s {
                            lemma_row_occ_pos(g, f.row as int, t.col + 1, f.col as int, s);
                        }
                        assert(t.col > s);
                        assert(targets@.contains(Position { row: f.row, col: (f.col - d) as i32 }));
                        assert(t == (Position { row: f.row, col: (f.col - d) as i32 }));
                    } else {
                        if t.col == cap {
                            assert(t == (Position { row: f.row, col: (cap) as i32 }));
                        } else if t.col == s {
                            lemma_row_occ_zero(g, f.row as int, t.col + 1, f.col as int);
                        } else if t.col < cap {
                            lemma_row_occ_pair(g, f.row as int, t.col + 1, f.col as int, cap, s);
                        }
                    }
                }
            }
        }
        let mut delta: i32 = 1;
        let mut has_chess = false;
        let mut blocked = false;
        let ghost mut s: int = 0;
        let ghost mut cap: int = 0;
        while delta <= 8 - f.col && !blocked
            invariant
                self.chesses@.len() == 90,
                g == self.chesses@,
                in_board_spec(f),
                forall|t: Position|
                    in_board_spec(t) && t.col == f.col && t.row < f.row && ((grid_at(g, t) == Chess::Empty && count_between_spec(g, f, t) == 0) || (grid_at(g, t) != Chess::Empty && count_between_spec(g, f, t) == 1)) ==> #[trigger] targets@.contains(t),
                forall|t: Position|
                    in_board_spec(t) && t.col == f.col && t.row > f.row && ((grid_at(g, t) == Chess::Empty && count_between_spec(g, f, t) == 0) || (grid_at(g, t) != Chess::Empty && count_between_spec(g, f, t) == 1)) ==> #[trigger] targets@.contains(t),
                forall|t: Position|
                    in_board_spec(t) && t.row == f.row && t.col < f.col && ((grid_at(g, t) == Chess::Empty && count_between_spec(g, f, t) == 0) || (grid_at(g, t) != Chess::Empty && count_between_spec(g, f, t) == 1)) ==> #[trigger] targets@.contains(t),
                1 <= delta <= 9 - f.col,
                !blocked && !has_chess ==> forall|j: int|
                    f.col < j < f.col + delta ==> #[trigger] g[f.row * 9 + j] == Chess::Empty,
                !blocked && !has_chess ==> forall|dd: int|
                    1 <= dd < delta ==> #[trigger] targets@.contains(Position { row: f.row, col: (f.col + dd) as i32 }),
                !blocked && has_chess ==> f.col < s < f.col + delta && g[f.row * 9 + s] != Chess::Empty && forall|
                    j: int,
                |
                    f.col < j < f.col + delta && j != s ==> #[trigger] g[f.row * 9 + j] == Chess::Empty,
                !blocked && has_chess ==> forall|dd: int|
                    1 <= dd < s - f.col ==> #[trigger] targets@.contains(Position { row: f.row, col: (f.col + dd) as i32 }),
                blocked ==> (s < cap) && (f.col < s < f.col + delta) && cap <= 8 && g[f.row * 9 + s]
                    != Chess::Empty && g[f.row * 9 + cap] != Chess::Empty && (forall|j: int|
                    (f.col < j) && (j < cap) && j != s
                        ==> #[trigger] g[f.row * 9 + j] == Chess::Empty) && targets@.contains(
                    Position { row: f.row, col: (cap) as i32 },
                ) && (forall|dd: int|
                    1 <= dd < s - f.col ==> #[trigger] targets@.contains(Position { row: f.row, col: (f.col + dd) as i32 })),
                forall|i: int|
                    0 <= i < targets@.len() ==> target_pre_spec(
                        g,
                        self.turn,
                        ChessType::Cannon,
                        f,
                        #[trigger] targets@[i],
                    ),
            decreases 9 - f.col - delta,
        {
            let t = f.right(delta);
            proof {
                lemma_sq_index_bijective(t);
            }
            if !has_chess {
                if self.chess_at(t) != Chess::Empty {
                    has_chess = true;
                    proof {
                        s = t.col as int;
                    }
                } else {
                    proof {
                        lemma_row_occ_zero(g, f.row as int, f.col + 1, t.col as int);
                    }
                    push_target(targets, t);
                }
            } else {
                if self.chess_at(t) != Chess::Empty {
                    proof {
                        lemma_row_occ_single(g, f.row as int, f.col + 1, t.col as int, s);
                        cap = t.col as int;
                    }
                    push_target(targets, t);
                    blocked = true;
                }
            }
            delta = delta + 1;
        }
        proof {
            assert forall|t: Position|
                in_board_spec(t) && t.row == f.row && t.col > f.col && ((
                grid_at(g, t) == Chess::Empty && count_between_spec(g, f, t) == 0) || (grid_at(g, t)
                    != Chess::Empty && count_between_spec(g, f, t) == 1)) implies targets@.contains(
                t,
            ) by {
                lemma_sq_index_bijective(t);
                let d = t.col - f.col;
                if !has_chess && !blocked {
                    assert(g[f.row * 9 + t.col as int] == Chess::Empty);
                    assert(targets@.contains(Position { row: f.row, col: (f.col + d) as i32 }));
                    assert(t == (Position { row: f.row, col: (f.col + d) as i32 }));
                } else if !blocked {
                    if g[f.row * 9 + t.col as int] == Chess::Empty {
                        if t.col > s {
                            lemma_row_occ_pos(g, f.row as int, f.col + 1, t.col as int, s);
                        }
                        assert(t.col < s);
                        assert(targets@.contains(Position { row: f.row, col: (f.col + d) as i32 }));
                        assert(t == (Position { row: f.row, col: (f.col + d) as i32 }));
                    } else {
                        assert(t.col == s);
                        lemma_row_occ_zero(g, f.row as int, f.col + 1, t.col as int);
                    }
                } else {
                    if g[f.row * 9 + t.col as int] == Chess::Empty {
                        if t.col > s {
                            lemma_row_occ_pos(g, f.row as int, f.col + 1, t.col as int, s);
                        }
                        assert(t.col < s);
                        assert(targets@.contains(Position { row: f.row, col: (f.col + d) as i32 }));
                        assert(t == (Position { row: f.row, col: (f.col + d) as i32 }));
                    } else {
                        if t.col == cap {
                            assert(t == (Position { row: f.row, col: (cap) as i32 }));
                        } else if t.col == s {
                            lemma_row_occ_zero(g, f.row as int, f.col + 1, t.col as int);
                        } else if t.col > cap {
                            lemma_row_occ_pair(g, f.row as int, f.col + 1, t.col as int, s, cap);
                        }
                    }
                }
            }
        }
        proof {
            assert forall|t: Position|
                in_board_spec(t) && #[trigger] target_pre_spec(
                    g,
                    self.turn,
                    ChessType::Cannon,
                    f,
                    t,
                ) implies targets@.contains(t) by {
            }
        }
    }

    /// Generates every pseudo-legal move of the side to move; with
    /// `capture_only`, only those that take an enemy piece. Each emitted
    /// move passes `is_valid_move`, names the side to move as its player,
    /// and carries the true source and target pieces; and every move of
    /// that completed shape that is pseudo-legal (and a capture, when asked
    /// for captures) is emitted.
    #[verifier::rlimit(100)]
    pub fn generate_move(&self, capture_only: bool) -> (r: Vec<Move>)
        requires
            self.chesses@.len() == 90,
        ensures
            forall|i: int|
                0 <= i < r.len() ==> {
                    let m = #[trigger] r@[i];
                    &&& valid_move_spec(self.chesses@, self.turn, m)
                    &&& m.player == self.turn
                    &&& m.chess == grid_at(self.chesses@, m.from)
                    &&& m.capture == grid_at(self.chesses@, m.to)
                    &&& (capture_only ==> m.capture != Chess::Empty)
                },
            forall|m: Move|
                #[trigger] valid_move_spec(self.chesses@, self.turn, m) && m.player == self.turn
                    && m.chess == grid_at(self.chesses@, m.from) && m.capture == grid_at(
                    self.chesses@,
                    m.to,
                ) && (capture_only ==> m.capture != Chess::Empty) ==> r@.contains(m),
    {
        let ghost g = self.chesses@;
        let ghost turn = self.turn;
        let mut moves: Vec<Move> = Vec::new();
        let mut i: i32 = 0;
        while i < BOARD_HEIGHT
            invariant
                self.chesses@.len() == 90,
                g == self.chesses@,
                turn == self.turn,
                0 <= i <= 10,
                forall|q: int|
                    0 <= q < moves@.len() ==> {
                        let m = #[trigger] moves@[q];
                        &&& valid_move_spec(g, turn, m)
                        &&& m.player == turn
                        &&& m.chess == grid_at(g, m.from)
                        &&& m.capture == grid_at(g, m.to)
                        &&& (capture_only ==> m.capture != Chess::Empty)
                    },
                forall|m: Move|
                    #[trigger] valid_move_spec(g, turn, m) && m.player == turn && m.chess
                        == grid_at(g, m.from) && m.capture == grid_at(g, m.to) && (capture_only
                        ==> m.capture != Chess::Empty) && sq_index(m.from) < i * 9
                        ==> moves@.contains(m),
            decreases 10 - i,
        {
            let mut j: i32 = 0;
            while j < BOARD_WIDTH
                invariant
                    self.chesses@.len() == 90,
                    g == self.chesses@,
                    turn == self.turn,
                    0 <= i < 10,
                    0 <= j <= 9,
                    forall|q: int|
                        0 <= q < moves@.len() ==> {
                            let m = #[trigger] moves@[q];
                            &&& valid_move_spec(g, turn, m)
                            &&& m.player == turn
                            &&& m.chess == grid_at(g, m.from)
                            &&& m.capture == grid_at(g, m.to)
                            &&& (capture_only ==> m.capture != Chess::Empty)
                        },
                    forall|m: Move|
                        #[trigger] valid_move_spec(g, turn, m) && m.player == turn && m.chess
                            == grid_at(g, m.from) && m.capture == grid_at(g, m.to) && (capture_only
                            ==> m.capture != Chess::Empty) && sq_index(m.from) < i * 9 + j
                            ==> moves@.contains(m),
                decreases 9 - j,
            {
                let position_base = Position { row: i, col: j };
                let chess = self.chess_at(position_base);
                proof {
                    lemma_sq_index_bijective(position_base);
                }
                if chess.belong_to(self.turn) {
                    match chess.chess_type() {
                        Some(ct) => {
                            let targets = self.generate_move_for_chess_type(ct, position_base);
                            let move_base = Move {
                                player: self.turn,
                                from: position_base,
                                to: position_base,
                                chess,
                                capture: Chess::Empty,
                            };
                            let mut ti: usize = 0;
                            while ti < targets.len()
                                invariant
                                    self.chesses@.len() == 90,
                                    g == self.chesses@,
                                    turn == self.turn,
                                    0 <= i < 10,
                                    0 <= j < 9,
                                    position_base == (Position { row: i, col: j }),
                                    chess == grid_at(g, position_base),
                                    chess.belongs_spec(turn),
                                    chess.chess_type_spec() == Some(ct),
                                    move_base.player == turn,
                                    move_base.from == position_base,
                                    move_base.chess == chess,
                                    ti <= targets@.len(),
                                    forall|q: int|
                                        0 <= q < targets@.len() ==> target_pre_spec(
                                            g,
                                            turn,
                                            ct,
                                            position_base,
                                            #[trigger] targets@[q],
                                        ),
                                    forall|t: Position|
                                        in_board_spec(t) && #[trigger] target_pre_spec(
                                            g,
                                            turn,
                                            ct,
                                            position_base,
                                            t,
                                        ) ==> targets@.contains(t),
                                    forall|q: int|
                                        0 <= q < moves@.len() ==> {
                                            let m = #[trigger] moves@[q];
                                            &&& valid_move_spec(g, turn, m)
                                            &&& m.player == turn
                                            &&& m.chess == grid_at(g, m.from)
                                            &&& m.capture == grid_at(g, m.to)
                                            &&& (capture_only ==> m.capture != Chess::Empty)
                                        },
                                    forall|m: Move|
                                        #[trigger] valid_move_spec(g, turn, m) && m.player == turn
                                            && m.chess == grid_at(g, m.from) && m.capture
                                            == grid_at(g, m.to) && (capture_only ==> m.capture
                                            != Chess::Empty) && sq_index(m.from) < i * 9 + j
                                            ==> moves@.contains(m),
                                    forall|m: Move|
                                        #[trigger] valid_move_spec(g, turn, m) && m.player == turn
                                            && m.chess == grid_at(g, m.from) && m.capture
                                            == grid_at(g, m.to) && (capture_only ==> m.capture
                                            != Chess::Empty) && m.from == position_base && (
                                        exists|q: int|
                                            0 <= q < ti && #[trigger] targets@[q] == m.to)
                                            ==> moves@.contains(m),
                                decreases targets@.len() - ti,
                            {
                                let target = targets[ti];
                                let valid = match ct {
                                    ChessType::King => in_palace(target, self.turn),
                                    ChessType::Advisor => in_palace(target, self.turn),
                                    ChessType::Bishop => in_country(target.row, self.turn)
                                        && in_board(target),
                                    _ => in_board(target),
                                };
                                if valid {
                                    let target_chess = self.chess_at(target);
                                    if !target_chess.belong_to(self.turn) && (!capture_only
                                        || target_chess.chess_type().is_some()) {
                                        let nm = move_base.with_target(target, target_chess);
                                        let ghost pre = moves@;
                                        moves.push(nm);
                                        proof {
                                            lemma_contains_after_push(pre, nm);
                                        }
                                    }
                                }
                                ti = ti + 1;
                            }
                            proof {
                                assert forall|m: Move|
                                    #[trigger] valid_move_spec(g, turn, m) && m.player == turn
                                        && m.chess == grid_at(g, m.from) && m.capture == grid_at(
                                        g,
                                        m.to,
                                    ) && (capture_only ==> m.capture != Chess::Empty) && sq_index(
                                        m.from,
                                    ) < i * 9 + j + 1 implies moves@.contains(m) by {
                                    if sq_index(m.from) >= i * 9 + j {
                                        lemma_sq_index_bijective(m.from);
                                        assert(m.from == position_base);
                                        assert(target_pre_spec(g, turn, ct, position_base, m.to));
                                        assert(targets@.contains(m.to));
                                    }
                                }
                            }
                        },
                        None => {
                        },
                    }
                } else {
                    proof {
                        assert forall|m: Move|
                            #[trigger] valid_move_spec(g, turn, m) && m.player == turn && m.chess
                                == grid_at(g, m.from) && m.capture == grid_at(g, m.to) && (
                            capture_only ==> m.capture != Chess::Empty) && sq_index(m.from) < i * 9
                                + j + 1 implies moves@.contains(m) by {
                            if sq_index(m.from) >= i * 9 + j {
                                lemma_sq_index_bijective(m.from);
                                assert(m.from == position_base);
                            }
                        }
                    }
                }
                j = j + 1;
            }
            i = i + 1;
        }
        moves
    }
}

} // verus!
