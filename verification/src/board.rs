//! The position: a 9x10 grid, the side to move, two incrementally kept
//! Zobrist hashes, and incrementally kept material-plus-position totals for
//! each side. The well-formedness invariant ties every derived field to a
//! from-scratch recomputation over the grid, so keeping it through every
//! mutator is exactly the incremental-update contract.

use vstd::prelude::*;
use vstd::string::StringSliceAdditionalSpecFns;

use crate::moves::Move;
use crate::piece::{Chess, ChessType, Player};
use crate::pos::{in_board, in_board_spec, lemma_sq_index_bijective, sq_index, Position};
use crate::pst::{
    lemma_side_sum_bounds, lemma_side_sum_update, lemma_side_term_bounds, piece_square_value_spec,
    pst_spec, pst_value, side_sum,
};
use crate::zobrist::{
    hash_spec, lemma_grid_hash_update, piece_key_spec, table_spec, Zobristable, SEED_LOCK,
    SEED_PRIMARY,
};

verus! {

pub const INITIATIVE_BONUS: i32 = 3;

/// The piece a grid holds on a square; empty off the board.
pub open spec fn grid_at(g: Seq<Chess>, pos: Position) -> Chess {
    if in_board_spec(pos) {
        g[sq_index(pos)]
    } else {
        Chess::Empty
    }
}

/// The position of a game in play.
#[derive(Debug)]
pub struct Board {
    /// The 90 squares, row by row from Black's back rank.
    pub chesses: Vec<Chess>,
    /// The side to move.
    pub turn: Player,
    /// Primary Zobrist hash of (grid, turn).
    pub zobrist_value: u64,
    /// Verification Zobrist hash of (grid, turn), from an independent table.
    pub zobrist_value_lock: u64,
    /// Sum of material and positional value over Red's pieces.
    pub vl_red: i32,
    /// Sum of material and positional value over Black's pieces.
    pub vl_black: i32,
    /// Interface-selected square; no effect on play.
    pub select_pos: Position,
    /// Primary Zobrist key table.
    pub zob_table: Zobristable,
    /// Lock Zobrist key table.
    pub zob_table_lock: Zobristable,
}

impl Board {
    /// Every derived field equals its from-scratch recomputation.
    pub open spec fn wf(&self) -> bool {
        &&& self.chesses@.len() == 90
        &&& self.zob_table.keys@ == table_spec(SEED_PRIMARY)
        &&& self.zob_table_lock.keys@ == table_spec(SEED_LOCK)
        &&& self.zobrist_value == hash_spec(table_spec(SEED_PRIMARY), self.chesses@, self.turn)
        &&& self.zobrist_value_lock == hash_spec(table_spec(SEED_LOCK), self.chesses@, self.turn)
        &&& self.vl_red == side_sum(self.chesses@, Player::Red, 90)
        &&& self.vl_black == side_sum(self.chesses@, Player::Black, 90)
    }

    /// The piece on a square; empty off the board.
    pub open spec fn at_spec(&self, pos: Position) -> Chess {
        grid_at(self.chesses@, pos)
    }

    /// The piece on a square; empty off the board.
    pub fn chess_at(&self, pos: Position) -> (r: Chess)
        requires
            self.chesses@.len() == 90,
        ensures
            r == self.at_spec(pos),
    {
        if in_board(pos) {
            proof {
                lemma_sq_index_bijective(pos);
            }
            self.chesses[(pos.row * 9 + pos.col) as usize]
        } else {
            Chess::Empty
        }
    }

    /// Unchecked write of one square. The derived fields are left alone, so
    /// the caller must recompute them to restore well-formedness.
    pub fn set_chess(&mut self, pos: Position, chess: Chess)
        requires
            old(self).chesses@.len() == 90,
            in_board_spec(pos),
        ensures
            final(self).chesses@ == old(self).chesses@.update(sq_index(pos), chess),
            final(self).turn == old(self).turn,
            final(self).zobrist_value == old(self).zobrist_value,
            final(self).zobrist_value_lock == old(self).zobrist_value_lock,
            final(self).vl_red == old(self).vl_red,
            final(self).vl_black == old(self).vl_black,
            final(self).select_pos == old(self).select_pos,
            final(self).zob_table == old(self).zob_table,
            final(self).zob_table_lock == old(self).zob_table_lock,
    {
        proof {
            lemma_sq_index_bijective(pos);
        }
        self.chesses[(pos.row * 9 + pos.col) as usize] = chess;
    }

    /// A board with no pieces, Red to move, well formed.
    pub fn empty() -> (r: Board)
        ensures
            r.wf(),
            forall|k: int| 0 <= k < 90 ==> r.chesses@[k] == Chess::Empty,
            r.turn == Player::Red,
            r.select_pos == (Position { row: 1, col: 1 }),
    {
        let mut grid: Vec<Chess> = Vec::new();
        let mut k: usize = 0;
        while k < 90
            invariant
                grid@.len() == k,
                k <= 90,
                forall|i: int| 0 <= i < k ==> grid@[i] == Chess::Empty,
            decreases 90 - k,
        {
            grid.push(Chess::Empty);
            k = k + 1;
        }
        Board::from_grid(grid, Player::Red)
    }

    /// Builds a well-formed board from a grid and a side to move by
    /// computing both hashes and both side totals from scratch.
    pub fn from_grid(grid: Vec<Chess>, turn: Player) -> (r: Board)
        requires
            grid@.len() == 90,
        ensures
            r.wf(),
            r.chesses@ == grid@,
            r.turn == turn,
            r.select_pos == (Position { row: 1, col: 1 }),
    {
        let zob_table = Zobristable::new(SEED_PRIMARY);
        let zob_table_lock = Zobristable::new(SEED_LOCK);
        let zobrist_value = zob_table.calc_chesses(&grid, turn);
        let zobrist_value_lock = zob_table_lock.calc_chesses(&grid, turn);
        let vl_red = compute_side_value(&grid, Player::Red);
        let vl_black = compute_side_value(&grid, Player::Black);
        Board {
            chesses: grid,
            turn,
            zobrist_value,
            zobrist_value_lock,
            vl_red,
            vl_black,
            select_pos: Position { row: 1, col: 1 },
            zob_table,
            zob_table_lock,
        }
    }

    /// An exact copy of the board.
    pub fn duplicate(&self) -> (r: Board)
        requires
            self.chesses@.len() == 90,
        ensures
            r.chesses@ == self.chesses@,
            r.turn == self.turn,
            r.zobrist_value == self.zobrist_value,
            r.zobrist_value_lock == self.zobrist_value_lock,
            r.vl_red == self.vl_red,
            r.vl_black == self.vl_black,
            r.select_pos == self.select_pos,
            r.zob_table.keys@ == self.zob_table.keys@,
            r.zob_table_lock.keys@ == self.zob_table_lock.keys@,
            self.wf() ==> r.wf(),
    {
        Board {
            chesses: copy_chess_vec(&self.chesses),
            turn: self.turn,
            zobrist_value: self.zobrist_value,
            zobrist_value_lock: self.zobrist_value_lock,
            vl_red: self.vl_red,
            vl_black: self.vl_black,
            select_pos: self.select_pos,
            zob_table: Zobristable { keys: copy_u64_vec(&self.zob_table.keys) },
            zob_table_lock: Zobristable { keys: copy_u64_vec(&self.zob_table_lock.keys) },
        }
    }
}

fn copy_chess_vec(v: &Vec<Chess>) -> (r: Vec<Chess>)
    ensures
        r@ == v@,
{
    let mut r: Vec<Chess> = Vec::new();
    let mut i: usize = 0;
    while i < v.len()
        invariant
            i <= v@.len(),
            r@ == v@.subrange(0, i as int),
        decreases v@.len() - i,
    {
        r.push(v[i]);
        proof {
            assert(r@ =~= v@.subrange(0, i + 1));
        }
        i = i + 1;
    }
    proof {
        assert(r@ =~= v@);
    }
    r
}

fn copy_u64_vec(v: &Vec<u64>) -> (r: Vec<u64>)
    ensures
        r@ == v@,
{
    let mut r: Vec<u64> = Vec::new();
    let mut i: usize = 0;
    while i < v.len()
        invariant
            i <= v@.len(),
            r@ == v@.subrange(0, i as int),
        decreases v@.len() - i,
    {
        r.push(v[i]);
        proof {
            assert(r@ =~= v@.subrange(0, i + 1));
        }
        i = i + 1;
    }
    proof {
        assert(r@ =~= v@);
    }
    r
}

/// What a move must satisfy to be applied: both squares on the board and
/// distinct, the move's piece and capture fields naming what actually stands
/// there, and the mover being the side to move.
pub open spec fn apply_ok_spec(b: &Board, m: Move) -> bool {
    &&& in_board_spec(m.from)
    &&& in_board_spec(m.to)
    &&& m.from != m.to
    &&& b.at_spec(m.from) == m.chess
    &&& m.chess.player_spec() == Some(m.player)
    &&& b.at_spec(m.to) == m.capture
    &&& m.player == b.turn
}

/// The grid after applying `m`: the source empties, the target takes the
/// moved piece.
pub open spec fn apply_grid_spec(g: Seq<Chess>, m: Move) -> Seq<Chess> {
    g.update(sq_index(m.from), Chess::Empty).update(sq_index(m.to), m.chess)
}

/// What undoing `m` needs of the board: the moved piece stands on the
/// target, the source is empty, and the opponent of the mover is to move.
pub open spec fn undo_ok_spec(b: &Board, m: Move) -> bool {
    &&& in_board_spec(m.from)
    &&& in_board_spec(m.to)
    &&& m.from != m.to
    &&& b.at_spec(m.to) == m.chess
    &&& b.at_spec(m.from) == Chess::Empty
    &&& m.chess.player_spec() == Some(m.player)
    &&& b.turn == m.player.next_spec()
}

/// The grid after undoing `m`: the moved piece returns to the source, the
/// captured piece (or emptiness) returns to the target.
pub open spec fn undo_grid_spec(g: Seq<Chess>, m: Move) -> Seq<Chess> {
    g.update(sq_index(m.from), m.chess).update(sq_index(m.to), m.capture)
}

proof fn lemma_xor_pull_side(g: u64, s: u64, a: u64, b: u64, c: u64, k: u64)
    ensures
        ((((g ^ s) ^ a) ^ b) ^ c) ^ k == (((g ^ a) ^ b) ^ c) ^ (s ^ k),
{
    assert(((((g ^ s) ^ a) ^ b) ^ c) ^ k == (((g ^ a) ^ b) ^ c) ^ (s ^ k)) by (bit_vector);
}

proof fn lemma_xor_reorder_a(g: u64, a: u64, b: u64, c: u64)
    ensures
        (((g ^ a) ^ 0) ^ c) ^ b == ((g ^ a) ^ b) ^ c,
{
    assert((((g ^ a) ^ 0) ^ c) ^ b == ((g ^ a) ^ b) ^ c) by (bit_vector);
}

proof fn lemma_xor_reorder_b(g: u64, a: u64, b: u64, c: u64)
    ensures
        (((g ^ 0) ^ a) ^ b) ^ c == ((g ^ a) ^ b) ^ c,
{
    assert((((g ^ 0) ^ a) ^ b) ^ c == ((g ^ a) ^ b) ^ c) by (bit_vector);
}

/// XOR with the same key twice gives the value back.
pub proof fn lemma_xor_involution(a: u64, k: u64)
    ensures
        (a ^ k) ^ k == a,
{
    assert((a ^ k) ^ k == a) by (bit_vector);
}

impl Board {
    /// Applies a move: moves the piece, folds the changed squares and the
    /// side key into both hashes, adjusts both side totals, and flips the
    /// turn. Afterwards every derived field again equals a from-scratch
    /// recomputation over the new grid and turn.
    pub fn apply_move(&mut self, m: &Move)
        requires
            old(self).wf(),
            apply_ok_spec(old(self), *m),
        ensures
            final(self).wf(),
            final(self).chesses@ == apply_grid_spec(old(self).chesses@, *m),
            final(self).turn == m.player.next_spec(),
            final(self).select_pos == old(self).select_pos,
            final(self).zob_table == old(self).zob_table,
            final(self).zob_table_lock == old(self).zob_table_lock,
    {
        let ghost g0 = self.chesses@;
        let ghost f = sq_index(m.from);
        let ghost t = sq_index(m.to);
        let ghost turn0 = self.turn;
        proof {
            lemma_sq_index_bijective(m.from);
            lemma_sq_index_bijective(m.to);
            lemma_side_sum_bounds(g0, Player::Red, 90);
            lemma_side_sum_bounds(g0, Player::Black, 90);
        }
        let chess = self.chess_at(m.from);
        let from_val = piece_square_value(chess, m.from.row, m.from.col);
        let to_val = piece_square_value(chess, m.to.row, m.to.col);
        let cap_val = piece_square_value(m.capture, m.to.row, m.to.col);
        match m.player {
            Player::Red => {
                self.vl_red = self.vl_red - from_val + to_val;
            }
            Player::Black => {
                self.vl_black = self.vl_black - from_val + to_val;
            }
        }
        match m.capture.player() {
            Some(Player::Red) => {
                self.vl_red = self.vl_red - cap_val;
            }
            Some(Player::Black) => {
                self.vl_black = self.vl_black - cap_val;
            }
            None => {
            }
        }
        self.set_chess(m.from, Chess::Empty);
        self.set_chess(m.to, chess);
        self.zobrist_value = self.zob_table.apply_move(self.zobrist_value, m);
        self.zobrist_value_lock = self.zob_table_lock.apply_move(self.zobrist_value_lock, m);
        self.turn = m.player.next();
        proof {
            let g1 = g0.update(f, Chess::Empty);
            let g2 = g1.update(t, m.chess);
            assert(self.chesses@ == g2);
            lemma_side_sum_update(g0, Chess::Empty, Player::Red, f, 90);
            lemma_side_sum_update(g0, Chess::Empty, Player::Black, f, 90);
            lemma_side_sum_update(g1, m.chess, Player::Red, t, 90);
            lemma_side_sum_update(g1, m.chess, Player::Black, t, 90);
            assert(g1[t] == g0[t]);
            let tp = table_spec(SEED_PRIMARY);
            let tl = table_spec(SEED_LOCK);
            lemma_grid_hash_update(tp, g0, Chess::Empty, f, 90);
            lemma_grid_hash_update(tp, g1, m.chess, t, 90);
            lemma_grid_hash_update(tl, g0, Chess::Empty, f, 90);
            lemma_grid_hash_update(tl, g1, m.chess, t, 90);
            lemma_hash_after_change(tp, g0, g1, g2, turn0, *m, f, t);
            lemma_hash_after_change(tl, g0, g1, g2, turn0, *m, f, t);
        }
    }

    /// Undoes a move: the exact inverse of `apply_move` on a board in the
    /// shape `apply_move` leaves behind.
    pub fn undo_move(&mut self, m: &Move)
        requires
            old(self).wf(),
            undo_ok_spec(old(self), *m),
        ensures
            final(self).wf(),
            final(self).chesses@ == undo_grid_spec(old(self).chesses@, *m),
            final(self).turn == m.player,
            final(self).select_pos == old(self).select_pos,
            final(self).zob_table == old(self).zob_table,
            final(self).zob_table_lock == old(self).zob_table_lock,
    {
        let ghost g0 = self.chesses@;
        let ghost f = sq_index(m.from);
        let ghost t = sq_index(m.to);
        let ghost turn0 = self.turn;
        proof {
            lemma_sq_index_bijective(m.from);
            lemma_sq_index_bijective(m.to);
            lemma_side_sum_bounds(g0, Player::Red, 90);
            lemma_side_sum_bounds(g0, Player::Black, 90);
        }
        let chess = self.chess_at(m.to);
        let from_val = piece_square_value(chess, m.from.row, m.from.col);
        let to_val = piece_square_value(chess, m.to.row, m.to.col);
        let cap_val = piece_square_value(m.capture, m.to.row, m.to.col);
        match m.player {
            Player::Red => {
                self.vl_red = self.vl_red - to_val + from_val;
            }
            Player::Black => {
                self.vl_black = self.vl_black - to_val + from_val;
            }
        }
        match m.capture.player() {
            Some(Player::Red) => {
                self.vl_red = self.vl_red + cap_val;
            }
            Some(Player::Black) => {
                self.vl_black = self.vl_black + cap_val;
            }
            None => {
            }
        }
        self.set_chess(m.from, chess);
        self.set_chess(m.to, m.capture);
        self.zobrist_value = self.zob_table.undo_move(self.zobrist_value, m);
        self.zobrist_value_lock = self.zob_table_lock.undo_move(self.zobrist_value_lock, m);
        self.turn = m.player;
        proof {
            let g1 = g0.update(f, m.chess);
            let g2 = g1.update(t, m.capture);
            assert(self.chesses@ == g2);
            lemma_side_sum_update(g0, m.chess, Player::Red, f, 90);
            lemma_side_sum_update(g0, m.chess, Player::Black, f, 90);
            lemma_side_sum_update(g1, m.capture, Player::Red, t, 90);
            lemma_side_sum_update(g1, m.capture, Player::Black, t, 90);
            assert(g1[t] == g0[t]);
            let tp = table_spec(SEED_PRIMARY);
            let tl = table_spec(SEED_LOCK);
            lemma_grid_hash_update(tp, g0, m.chess, f, 90);
            lemma_grid_hash_update(tp, g1, m.capture, t, 90);
            lemma_grid_hash_update(tl, g0, m.chess, f, 90);
            lemma_grid_hash_update(tl, g1, m.capture, t, 90);
            lemma_hash_after_undo(tp, g0, g1, g2, turn0, *m, f, t);
            lemma_hash_after_undo(tl, g0, g1, g2, turn0, *m, f, t);
        }
    }

    /// A null move: flips the turn and folds the side key into both hashes,
    /// so both stay recomputations of (grid, turn).
    pub fn do_null_move(&mut self)
        requires
            old(self).wf(),
        ensures
            final(self).wf(),
            final(self).chesses@ == old(self).chesses@,
            final(self).turn == old(self).turn.next_spec(),
            final(self).vl_red == old(self).vl_red,
            final(self).vl_black == old(self).vl_black,
            final(self).select_pos == old(self).select_pos,
            final(self).zobrist_value == old(self).zobrist_value ^ table_spec(
                SEED_PRIMARY,
            )[1260],
            final(self).zobrist_value_lock == old(self).zobrist_value_lock ^ table_spec(
                SEED_LOCK,
            )[1260],
            final(self).zob_table == old(self).zob_table,
            final(self).zob_table_lock == old(self).zob_table_lock,
    {
        self.zobrist_value = self.zobrist_value ^ self.zob_table.side_key();
        self.zobrist_value_lock = self.zobrist_value_lock ^ self.zob_table_lock.side_key();
        self.turn = self.turn.next();
        proof {
            lemma_null_hash(table_spec(SEED_PRIMARY), self.chesses@, old(self).turn);
            lemma_null_hash(table_spec(SEED_LOCK), self.chesses@, old(self).turn);
        }
    }

    /// Undoes a null move; the same fold, since XOR is an involution.
    pub fn undo_null_move(&mut self)
        requires
            old(self).wf(),
        ensures
            final(self).wf(),
            final(self).chesses@ == old(self).chesses@,
            final(self).turn == old(self).turn.next_spec(),
            final(self).vl_red == old(self).vl_red,
            final(self).vl_black == old(self).vl_black,
            final(self).select_pos == old(self).select_pos,
            final(self).zobrist_value == old(self).zobrist_value ^ table_spec(
                SEED_PRIMARY,
            )[1260],
            final(self).zobrist_value_lock == old(self).zobrist_value_lock ^ table_spec(
                SEED_LOCK,
            )[1260],
            final(self).zob_table == old(self).zob_table,
            final(self).zob_table_lock == old(self).zob_table_lock,
    {
        self.zobrist_value = self.zobrist_value ^ self.zob_table.side_key();
        self.zobrist_value_lock = self.zobrist_value_lock ^ self.zob_table_lock.side_key();
        self.turn = self.turn.next();
        proof {
            lemma_null_hash(table_spec(SEED_PRIMARY), self.chesses@, old(self).turn);
            lemma_null_hash(table_spec(SEED_LOCK), self.chesses@, old(self).turn);
        }
    }
}

proof fn lemma_null_hash(tab: Seq<u64>, g: Seq<Chess>, turn0: Player)
    ensures
        hash_spec(tab, g, turn0) ^ tab[1260] == hash_spec(tab, g, turn0.next_spec()),
{
    let gh = crate::zobrist::grid_hash_rec(tab, g, 90);
    let k = tab[1260];
    if turn0 == Player::Red {
        assert((gh ^ 0) ^ k == gh ^ k) by (bit_vector);
    } else {
        assert((gh ^ k) ^ k == gh ^ 0) by (bit_vector);
    }
}

proof fn lemma_hash_after_change(
    tab: Seq<u64>,
    g0: Seq<Chess>,
    g1: Seq<Chess>,
    g2: Seq<Chess>,
    turn0: Player,
    m: Move,
    f: int,
    t: int,
)
    requires
        g0.len() == 90,
        f == sq_index(m.from),
        t == sq_index(m.to),
        0 <= f < 90,
        0 <= t < 90,
        f != t,
        g0[f] == m.chess,
        g0[t] == m.capture,
        g1 == g0.update(f, Chess::Empty),
        g2 == g1.update(t, m.chess),
        crate::zobrist::grid_hash_rec(tab, g1, 90) == (crate::zobrist::grid_hash_rec(tab, g0, 90)
            ^ piece_key_spec(tab, g0[f], f)) ^ piece_key_spec(tab, Chess::Empty, f),
        crate::zobrist::grid_hash_rec(tab, g2, 90) == (crate::zobrist::grid_hash_rec(tab, g1, 90)
            ^ piece_key_spec(tab, g1[t], t)) ^ piece_key_spec(tab, m.chess, t),
    ensures
        (((hash_spec(tab, g0, turn0) ^ piece_key_spec(tab, m.chess, f)) ^ piece_key_spec(
            tab,
            m.chess,
            t,
        )) ^ piece_key_spec(tab, m.capture, t)) ^ tab[1260] == hash_spec(
            tab,
            g2,
            turn0.next_spec(),
        ),
{
    let gh0 = crate::zobrist::grid_hash_rec(tab, g0, 90);
    let gh2 = crate::zobrist::grid_hash_rec(tab, g2, 90);
    let a = piece_key_spec(tab, m.chess, f);
    let b = piece_key_spec(tab, m.chess, t);
    let c = piece_key_spec(tab, m.capture, t);
    let k = tab[1260];
    let s0: u64 = if turn0 == Player::Black {
        k
    } else {
        0
    };
    let s1: u64 = if turn0.next_spec() == Player::Black {
        k
    } else {
        0
    };
    assert(piece_key_spec(tab, Chess::Empty, f) == 0);
    assert(gh2 == (((gh0 ^ a) ^ 0) ^ c) ^ b);
    lemma_xor_reorder_a(gh0, a, b, c);
    assert(s1 == s0 ^ k) by {
        if turn0 == Player::Red {
            assert((0u64 ^ k) == k) by (bit_vector);
        } else {
            assert((k ^ k) == 0u64) by (bit_vector);
        }
    }
    lemma_xor_pull_side(gh0, s0, a, b, c, k);
}

proof fn lemma_hash_after_undo(
    tab: Seq<u64>,
    g0: Seq<Chess>,
    g1: Seq<Chess>,
    g2: Seq<Chess>,
    turn0: Player,
    m: Move,
    f: int,
    t: int,
)
    requires
        g0.len() == 90,
        f == sq_index(m.from),
        t == sq_index(m.to),
        0 <= f < 90,
        0 <= t < 90,
        f != t,
        g0[t] == m.chess,
        g0[f] == Chess::Empty,
        g1 == g0.update(f, m.chess),
        g2 == g1.update(t, m.capture),
        crate::zobrist::grid_hash_rec(tab, g1, 90) == (crate::zobrist::grid_hash_rec(tab, g0, 90)
            ^ piece_key_spec(tab, g0[f], f)) ^ piece_key_spec(tab, m.chess, f),
        crate::zobrist::grid_hash_rec(tab, g2, 90) == (crate::zobrist::grid_hash_rec(tab, g1, 90)
            ^ piece_key_spec(tab, g1[t], t)) ^ piece_key_spec(tab, m.capture, t),
    ensures
        (((hash_spec(tab, g0, turn0) ^ piece_key_spec(tab, m.chess, f)) ^ piece_key_spec(
            tab,
            m.chess,
            t,
        )) ^ piece_key_spec(tab, m.capture, t)) ^ tab[1260] == hash_spec(
            tab,
            g2,
            turn0.next_spec(),
        ),
{
    let gh0 = crate::zobrist::grid_hash_rec(tab, g0, 90);
    let gh2 = crate::zobrist::grid_hash_rec(tab, g2, 90);
    let a = piece_key_spec(tab, m.chess, f);
    let b = piece_key_spec(tab, m.chess, t);
    let c = piece_key_spec(tab, m.capture, t);
    let k = tab[1260];
    let s0: u64 = if turn0 == Player::Black {
        k
    } else {
        0
    };
    let s1: u64 = if turn0.next_spec() == Player::Black {
        k
    } else {
        0
    };
    assert(piece_key_spec(tab, Chess::Empty, f) == 0);
    assert(g1[t] == g0[t]);
    assert(gh2 == (((gh0 ^ 0) ^ a) ^ b) ^ c);
    lemma_xor_reorder_b(gh0, a, b, c);
    assert(s1 == s0 ^ k) by {
        if turn0 == Player::Red {
            assert((0u64 ^ k) == k) by (bit_vector);
        } else {
            assert((k ^ k) == 0u64) by (bit_vector);
        }
    }
    lemma_xor_pull_side(gh0, s0, a, b, c, k);
}

/// Material plus positional value of the piece `c` standing on `(row, col)`.
pub fn piece_square_value(c: Chess, row: i32, col: i32) -> (r: i32)
    requires
        0 <= row < 10,
        0 <= col < 9,
    ensures
        r == piece_square_value_spec(c, row * 9 + col),
        0 <= r <= 10233,
{
    proof {
        lemma_sq_index_bijective(Position { row, col });
        lemma_side_term_bounds(c, Player::Red, row * 9 + col);
        lemma_side_term_bounds(c, Player::Black, row * 9 + col);
    }
    match c {
        Chess::Empty => 0,
        Chess::Red(ct) => ct.material_value() + pst_value(ct, row, col),
        Chess::Black(ct) => ct.material_value() + pst_value(ct, 9 - row, 8 - col),
    }
}

/// Number of occupied squares on `row` with column in `[lo, hi)`.
pub open spec fn row_occ_count(g: Seq<Chess>, row: int, lo: int, hi: int) -> int
    decreases hi - lo,
{
    if lo >= hi {
        0
    } else {
        row_occ_count(g, row, lo, hi - 1) + (if g[row * 9 + (hi - 1)] != Chess::Empty {
            1int
        } else {
            0
        })
    }
}

/// Number of occupied squares on `col` with row in `[lo, hi)`.
pub open spec fn col_occ_count(g: Seq<Chess>, col: int, lo: int, hi: int) -> int
    decreases hi - lo,
{
    if lo >= hi {
        0
    } else {
        col_occ_count(g, col, lo, hi - 1) + (if g[(hi - 1) * 9 + col] != Chess::Empty {
            1int
        } else {
            0
        })
    }
}

/// Number of pieces strictly between two aligned squares; 0 when the
/// squares share neither row nor column.
pub open spec fn count_between_spec(g: Seq<Chess>, a: Position, b: Position) -> int {
    if a.row == b.row {
        let lo = if a.col <= b.col {
            a.col as int
        } else {
            b.col as int
        };
        let hi = if a.col <= b.col {
            b.col as int
        } else {
            a.col as int
        };
        row_occ_count(g, a.row as int, lo + 1, hi)
    } else if a.col == b.col {
        let lo = if a.row <= b.row {
            a.row as int
        } else {
            b.row as int
        };
        let hi = if a.row <= b.row {
            b.row as int
        } else {
            a.row as int
        };
        col_occ_count(g, a.col as int, lo + 1, hi)
    } else {
        0
    }
}

pub proof fn lemma_row_occ_nonneg(g: Seq<Chess>, row: int, lo: int, hi: int)
    ensures
        0 <= row_occ_count(g, row, lo, hi) <= (if hi >= lo {
            hi - lo
        } else {
            0
        }),
    decreases hi - lo,
{
    if lo < hi {
        lemma_row_occ_nonneg(g, row, lo, hi - 1);
    }
}

pub proof fn lemma_col_occ_nonneg(g: Seq<Chess>, col: int, lo: int, hi: int)
    ensures
        0 <= col_occ_count(g, col, lo, hi) <= (if hi >= lo {
            hi - lo
        } else {
            0
        }),
    decreases hi - lo,
{
    if lo < hi {
        lemma_col_occ_nonneg(g, col, lo, hi - 1);
    }
}



/// A range of empty squares on a row counts zero.
pub proof fn lemma_row_occ_zero(g: Seq<Chess>, row: int, lo: int, hi: int)
    requires
        forall|j: int| lo <= j < hi ==> #[trigger] g[row * 9 + j] == Chess::Empty,
    ensures
        row_occ_count(g, row, lo, hi) == 0,
    decreases hi - lo,
{
    if lo < hi {
        lemma_row_occ_zero(g, row, lo, hi - 1);
    }
}

pub proof fn lemma_col_occ_zero(g: Seq<Chess>, col: int, lo: int, hi: int)
    requires
        forall|j: int| lo <= j < hi ==> #[trigger] g[j * 9 + col] == Chess::Empty,
    ensures
        col_occ_count(g, col, lo, hi) == 0,
    decreases hi - lo,
{
    if lo < hi {
        lemma_col_occ_zero(g, col, lo, hi - 1);
    }
}

/// An occupied square inside the range keeps the count positive.
pub proof fn lemma_row_occ_pos(g: Seq<Chess>, row: int, lo: int, hi: int, j: int)
    requires
        lo <= j < hi,
        g[row * 9 + j] != Chess::Empty,
    ensures
        row_occ_count(g, row, lo, hi) >= 1,
    decreases hi - lo,
{
    lemma_row_occ_nonneg(g, row, lo, hi - 1);
    if j < hi - 1 {
        lemma_row_occ_pos(g, row, lo, hi - 1, j);
    }
}

pub proof fn lemma_col_occ_pos(g: Seq<Chess>, col: int, lo: int, hi: int, j: int)
    requires
        lo <= j < hi,
        g[j * 9 + col] != Chess::Empty,
    ensures
        col_occ_count(g, col, lo, hi) >= 1,
    decreases hi - lo,
{
    lemma_col_occ_nonneg(g, col, lo, hi - 1);
    if j < hi - 1 {
        lemma_col_occ_pos(g, col, lo, hi - 1, j);
    }
}

/// Two occupied squares inside the range push the count to two.
pub proof fn lemma_row_occ_pair(g: Seq<Chess>, row: int, lo: int, hi: int, j1: int, j2: int)
    requires
        lo <= j1 < j2 < hi,
        g[row * 9 + j1] != Chess::Empty,
        g[row * 9 + j2] != Chess::Empty,
    ensures
        row_occ_count(g, row, lo, hi) >= 2,
    decreases hi - lo,
{
    if j2 == hi - 1 {
        lemma_row_occ_pos(g, row, lo, hi - 1, j1);
    } else {
        lemma_row_occ_pair(g, row, lo, hi - 1, j1, j2);
    }
}

pub proof fn lemma_col_occ_pair(g: Seq<Chess>, col: int, lo: int, hi: int, j1: int, j2: int)
    requires
        lo <= j1 < j2 < hi,
        g[j1 * 9 + col] != Chess::Empty,
        g[j2 * 9 + col] != Chess::Empty,
    ensures
        col_occ_count(g, col, lo, hi) >= 2,
    decreases hi - lo,
{
    if j2 == hi - 1 {
        lemma_col_occ_pos(g, col, lo, hi - 1, j1);
    } else {
        lemma_col_occ_pair(g, col, lo, hi - 1, j1, j2);
    }
}

/// A range with exactly one occupied square on a row counts one.
pub proof fn lemma_row_occ_single(g: Seq<Chess>, row: int, lo: int, hi: int, s: int)
    requires
        lo <= s < hi,
        g[row * 9 + s] != Chess::Empty,
        forall|j: int| lo <= j < hi && j != s ==> #[trigger] g[row * 9 + j] == Chess::Empty,
    ensures
        row_occ_count(g, row, lo, hi) == 1,
    decreases hi - lo,
{
    if s == hi - 1 {
        lemma_row_occ_zero(g, row, lo, hi - 1);
    } else {
        lemma_row_occ_single(g, row, lo, hi - 1, s);
    }
}

pub proof fn lemma_col_occ_single(g: Seq<Chess>, col: int, lo: int, hi: int, s: int)
    requires
        lo <= s < hi,
        g[s * 9 + col] != Chess::Empty,
        forall|j: int| lo <= j < hi && j != s ==> #[trigger] g[j * 9 + col] == Chess::Empty,
    ensures
        col_occ_count(g, col, lo, hi) == 1,
    decreases hi - lo,
{
    if s == hi - 1 {
        lemma_col_occ_zero(g, col, lo, hi - 1);
    } else {
        lemma_col_occ_single(g, col, lo, hi - 1, s);
    }
}

impl Board {
    /// Counts the pieces strictly between two aligned on-board squares.
    pub fn count_chess_between(&self, posa: Position, posb: Position) -> (r: i32)
        requires
            self.chesses@.len() == 90,
            in_board_spec(posa),
            in_board_spec(posb),
        ensures
            r == count_between_spec(self.chesses@, posa, posb),
            0 <= r <= 9,
    {
        let mut count: i32 = 0;
        if posa.row == posb.row {
            let lo: i32 = if posa.col <= posb.col {
                posa.col
            } else {
                posb.col
            };
            let hi: i32 = if posa.col <= posb.col {
                posb.col
            } else {
                posa.col
            };
            let mut j: i32 = lo + 1;
            proof {
                lemma_row_occ_nonneg(self.chesses@, posa.row as int, lo + 1, hi as int);
            }
            if j < hi {
                while j < hi
                    invariant
                        self.chesses@.len() == 90,
                        in_board_spec(posa),
                        in_board_spec(posb),
                        posa.row == posb.row,
                        0 <= lo < hi < 9,
                        lo < j <= hi,
                        count == row_occ_count(self.chesses@, posa.row as int, lo + 1, j as int),
                        0 <= count <= j - lo - 1,
                    decreases hi - j,
                {
                    let p = Position { row: posa.row, col: j };
                    proof {
                        lemma_sq_index_bijective(p);
                    }
                    if self.chess_at(p).chess_type().is_some() {
                        count = count + 1;
                    }
                    j = j + 1;
                }
            }
        } else if posa.col == posb.col {
            let lo: i32 = if posa.row <= posb.row {
                posa.row
            } else {
                posb.row
            };
            let hi: i32 = if posa.row <= posb.row {
                posb.row
            } else {
                posa.row
            };
            let mut i: i32 = lo + 1;
            proof {
                lemma_col_occ_nonneg(self.chesses@, posa.col as int, lo + 1, hi as int);
            }
            if i < hi {
                while i < hi
                    invariant
                        self.chesses@.len() == 90,
                        in_board_spec(posa),
                        in_board_spec(posb),
                        posa.col == posb.col,
                        posa.row != posb.row,
                        0 <= lo < hi < 10,
                        lo < i <= hi,
                        count == col_occ_count(self.chesses@, posa.col as int, lo + 1, i as int),
                        0 <= count <= i - lo - 1,
                    decreases hi - i,
                {
                    let p = Position { row: i, col: posa.col };
                    proof {
                        lemma_sq_index_bijective(p);
                    }
                    if self.chess_at(p).chess_type().is_some() {
                        count = count + 1;
                    }
                    i = i + 1;
                }
            }
        }
        count
    }

    /// Whether any piece stands strictly between two aligned squares.
    pub fn has_chess_between(&self, posa: Position, posb: Position) -> (r: bool)
        requires
            self.chesses@.len() == 90,
            in_board_spec(posa),
            in_board_spec(posb),
        ensures
            r == (count_between_spec(self.chesses@, posa, posb) > 0),
            count_between_spec(self.chesses@, posa, posb) >= 0,
    {
        self.count_chess_between(posa, posb) > 0
    }

    /// `player`'s King inside its palace, in scan order; `None` if the
    /// palace holds no King.
    pub fn king_position(&self, player: Player) -> (r: Option<Position>)
        requires
            self.chesses@.len() == 90,
        ensures
            r == king_pos_spec(self.chesses@, player),
            r matches Some(p) ==> in_board_spec(p),
    {
        let kc = if player == Player::Black {
            Chess::Black(ChessType::King)
        } else {
            Chess::Red(ChessType::King)
        };
        let base: i32 = if player == Player::Black {
            0
        } else {
            7
        };
        let mut i: i32 = base;
        while i < base + 3
            invariant
                self.chesses@.len() == 90,
                base == (if player == Player::Black {
                    0int
                } else {
                    7int
                }),
                base <= i <= base + 3,
                kc == king_chess_spec(player),
                forall|r0: int, c0: int|
                    base <= r0 < i && 3 <= c0 < 6 ==> #[trigger] self.chesses@[r0 * 9 + c0] != kc,
            decreases base + 3 - i,
        {
            let mut j: i32 = 3;
            while j < 6
                invariant
                    self.chesses@.len() == 90,
                    base == (if player == Player::Black {
                        0int
                    } else {
                        7int
                    }),
                    base <= i < base + 3,
                    3 <= j <= 6,
                    kc == king_chess_spec(player),
                    forall|r0: int, c0: int|
                        base <= r0 < i && 3 <= c0 < 6 ==> #[trigger] self.chesses@[r0 * 9 + c0]
                            != kc,
                    forall|c0: int| 3 <= c0 < j ==> #[trigger] self.chesses@[i * 9 + c0] != kc,
                decreases 6 - j,
            {
                let p = Position { row: i, col: j };
                proof {
                    lemma_sq_index_bijective(p);
                }
                if self.chess_at(p) == kc {
                    proof {
                        lemma_king_pos_found(self.chesses@, player, i as int, j as int);
                    }
                    return Some(p);
                }
                j = j + 1;
            }
            i = i + 1;
        }
        proof {
            lemma_king_pos_missing(self.chesses@, player);
        }
        None
    }

    /// The flying-general test: the two Kings share a column with nothing
    /// between them.
    pub fn king_eye_to_eye(&self) -> (r: bool)
        requires
            self.chesses@.len() == 90,
        ensures
            r == eye_to_eye_spec(self.chesses@),
    {
        let posa = match self.king_position(Player::Red) {
            Some(pos) => pos,
            None => {
                return false;
            }
        };
        let posb = match self.king_position(Player::Black) {
            Some(pos) => pos,
            None => {
                return false;
            }
        };
        if posa.col == posb.col {
            !self.has_chess_between(posa, posb)
        } else {
            false
        }
    }

    /// Difference of the side totals seen from `player`, plus the bonus for
    /// having the move.
    pub fn evaluate(&self, player: Player) -> (r: i32)
        requires
            self.wf(),
        ensures
            r == evaluate_spec(self.chesses@, player),
            -921000 <= r <= 921000,
    {
        proof {
            lemma_side_sum_bounds(self.chesses@, Player::Red, 90);
            lemma_side_sum_bounds(self.chesses@, Player::Black, 90);
        }
        if player == Player::Red {
            self.vl_red - self.vl_black + INITIATIVE_BONUS
        } else {
            self.vl_black - self.vl_red + INITIATIVE_BONUS
        }
    }

    /// From-scratch sum of `player`'s positional table values alone.
    pub fn get_player_score(&self, player: Player) -> (r: i32)
        requires
            self.chesses@.len() == 90,
        ensures
            r == pst_sum(self.chesses@, player, 90),
    {
        let mut sum: i32 = 0;
        let mut row: i32 = 0;
        while row < 10
            invariant
                self.chesses@.len() == 90,
                0 <= row <= 10,
                sum == pst_sum(self.chesses@, player, row * 9),
                0 <= sum <= row * 9 * 233,
            decreases 10 - row,
        {
            let mut col: i32 = 0;
            while col < 9
                invariant
                    self.chesses@.len() == 90,
                    0 <= row < 10,
                    0 <= col <= 9,
                    sum == pst_sum(self.chesses@, player, row * 9 + col),
                    0 <= sum <= (row * 9 + col) * 233,
                decreases 9 - col,
            {
                let k: usize = (row * 9 + col) as usize;
                let c = self.chesses[k];
                proof {
                    lemma_pst_term_bounds(c, player, k as int);
                    assert((row * 9 + col) * 233 + 233 == (row * 9 + col + 1) * 233)
                        by (nonlinear_arith);
                    assert((row * 9 + col + 1) * 233 <= 20970) by (nonlinear_arith)
                        requires
                            0 <= row < 10 && 0 <= col < 9,
                    ;
                    lemma_sq_index_bijective(Position { row, col });
                }
                if c.belong_to(player) {
                    match c.chess_type() {
                        Some(ct) => {
                            let v = if player == Player::Black {
                                pst_value(ct, 9 - row, 8 - col)
                            } else {
                                pst_value(ct, row, col)
                            };
                            sum = sum + v;
                        }
                        None => {
                        }
                    }
                }
                col = col + 1;
            }
            row = row + 1;
        }
        sum
    }

    /// The standard opening layout, Red to move.
    pub fn init() -> (r: Board)
        ensures
            r.wf(),
            r.turn == Player::Red,
            r.chesses@ == init_grid_spec(),
            forall|k: int| 0 <= k < 90 ==> r.chesses@[k] == init_square_spec(k / 9, k % 9),
    {
        let mut grid: Vec<Chess> = Vec::new();
        let mut row: i32 = 0;
        while row < 10
            invariant
                0 <= row <= 10,
                grid@.len() == row * 9,
                forall|k: int| 0 <= k < row * 9 ==> grid@[k] == init_square_spec(k / 9, k % 9),
            decreases 10 - row,
        {
            let mut col: i32 = 0;
            while col < 9
                invariant
                    0 <= row < 10,
                    0 <= col <= 9,
                    grid@.len() == row * 9 + col,
                    forall|k: int|
                        0 <= k < row * 9 + col ==> grid@[k] == init_square_spec(k / 9, k % 9),
                decreases 9 - col,
            {
                proof {
                    lemma_sq_index_bijective(Position { row, col });
                }
                grid.push(init_piece(row, col));
                col = col + 1;
            }
            row = row + 1;
        }
        proof {
            assert(grid@ =~= init_grid_spec());
        }
        Board::from_grid(grid, Player::Red)
    }
}

/// The King piece of a side.
pub open spec fn king_chess_spec(player: Player) -> Chess {
    if player == Player::Black {
        Chess::Black(ChessType::King)
    } else {
        Chess::Red(ChessType::King)
    }
}

/// Where `player`'s King stands, scanning its palace row by row.
pub open spec fn king_pos_spec(g: Seq<Chess>, player: Player) -> Option<Position> {
    if exists|r0: int, c0: int| first_king_at(g, player, r0, c0) {
        let (r1, c1) = choose|r1: int, c1: int| first_king_at(g, player, r1, c1);
        Some(Position { row: r1 as i32, col: c1 as i32 })
    } else {
        None
    }
}

/// The first palace square in scan order that holds `player`'s King.
pub open spec fn first_king_at(g: Seq<Chess>, player: Player, r0: int, c0: int) -> bool {
    let base: int = if player == Player::Black {
        0
    } else {
        7
    };
    let kc = king_chess_spec(player);
    &&& base <= r0 < base + 3
    &&& 3 <= c0 < 6
    &&& g[r0 * 9 + c0] == kc
    &&& forall|r2: int, c2: int|
        base <= r2 < base + 3 && 3 <= c2 < 6 && (r2 * 3 + c2 < r0 * 3 + c0) ==> #[trigger] g[r2 * 9
            + c2] != kc
}

proof fn lemma_king_pos_found(g: Seq<Chess>, player: Player, r0: int, c0: int)
    requires
        first_king_at(g, player, r0, c0),
    ensures
        king_pos_spec(g, player) == Some(Position { row: r0 as i32, col: c0 as i32 }),
{
    let base: int = if player == Player::Black {
        0
    } else {
        7
    };
    let kc = king_chess_spec(player);
    assert(g[r0 * 9 + c0] == kc);
    let (r1, c1) = choose|r1: int, c1: int| first_king_at(g, player, r1, c1);
    assert(first_king_at(g, player, r1, c1));
    if r1 * 3 + c1 < r0 * 3 + c0 {
        assert(g[r1 * 9 + c1] != kc);
        assert(false);
    } else if r0 * 3 + c0 < r1 * 3 + c1 {
        assert(g[r0 * 9 + c0] != kc);
        assert(false);
    } else {
        assert(r1 == r0 && c1 == c0) by (nonlinear_arith)
            requires
                r1 * 3 + c1 == r0 * 3 + c0 && 3 <= c0 < 6 && 3 <= c1 < 6,
        ;
    }
}

proof fn lemma_king_pos_missing(g: Seq<Chess>, player: Player)
    requires
        ({
            let base: int = if player == Player::Black {
                0
            } else {
                7
            };
            forall|r0: int, c0: int|
                base <= r0 < base + 3 && 3 <= c0 < 6 ==> #[trigger] g[r0 * 9 + c0]
                    != king_chess_spec(player)
        }),
    ensures
        king_pos_spec(g, player) is None,
{
}

/// The two Kings face each other on an open column.
pub open spec fn eye_to_eye_spec(g: Seq<Chess>) -> bool {
    match (king_pos_spec(g, Player::Red), king_pos_spec(g, Player::Black)) {
        (Some(a), Some(b)) => a.col == b.col && count_between_spec(g, a, b) == 0,
        _ => false,
    }
}

/// The board value seen by `player`: its own total minus the opponent's,
/// plus the initiative bonus for the side asked about.
pub open spec fn evaluate_spec(g: Seq<Chess>, player: Player) -> int {
    if player == Player::Red {
        side_sum(g, Player::Red, 90) - side_sum(g, Player::Black, 90) + 3
    } else {
        side_sum(g, Player::Black, 90) - side_sum(g, Player::Red, 90) + 3
    }
}

/// The positional-table value alone of the piece on square `k`, for `player`.
pub open spec fn pst_term(c: Chess, player: Player, k: int) -> int {
    if c.belongs_spec(player) {
        match c {
            Chess::Empty => 0,
            Chess::Red(ct) => pst_spec(ct, k / 9, k % 9),
            Chess::Black(ct) => pst_spec(ct, 9 - k / 9, 8 - k % 9),
        }
    } else {
        0
    }
}

/// Sum of `player`'s positional-table values over the first `n` squares.
pub open spec fn pst_sum(g: Seq<Chess>, player: Player, n: int) -> int
    decreases n,
{
    if n <= 0 {
        0
    } else {
        pst_sum(g, player, n - 1) + pst_term(g[n - 1], player, n - 1)
    }
}

proof fn lemma_pst_term_bounds(c: Chess, player: Player, k: int)
    ensures
        0 <= pst_term(c, player, k) <= 233,
{
    match c {
        Chess::Empty => {
        }
        Chess::Red(ct) => {
            crate::pst::lemma_pst_bounds(ct, k / 9, k % 9);
        }
        Chess::Black(ct) => {
            crate::pst::lemma_pst_bounds(ct, 9 - k / 9, 8 - k % 9);
        }
    }
}

/// The back rank of the opening layout.
pub open spec fn back_rank_spec(c: int) -> ChessType {
    if c == 0 || c == 8 {
        ChessType::Rook
    } else if c == 1 || c == 7 {
        ChessType::Knight
    } else if c == 2 || c == 6 {
        ChessType::Bishop
    } else if c == 3 || c == 5 {
        ChessType::Advisor
    } else {
        ChessType::King
    }
}

/// The opening layout as a grid.
pub open spec fn init_grid_spec() -> Seq<Chess> {
    Seq::new(90, |k: int| init_square_spec(k / 9, k % 9))
}

/// The opening layout, square by square.
pub open spec fn init_square_spec(r: int, c: int) -> Chess {
    if r == 0 {
        Chess::Black(back_rank_spec(c))
    } else if r == 2 && (c == 1 || c == 7) {
        Chess::Black(ChessType::Cannon)
    } else if r == 3 && c % 2 == 0 {
        Chess::Black(ChessType::Pawn)
    } else if r == 6 && c % 2 == 0 {
        Chess::Red(ChessType::Pawn)
    } else if r == 7 && (c == 1 || c == 7) {
        Chess::Red(ChessType::Cannon)
    } else if r == 9 {
        Chess::Red(back_rank_spec(c))
    } else {
        Chess::Empty
    }
}

fn back_rank(c: i32) -> (r: ChessType)
    requires
        0 <= c < 9,
    ensures
        r == back_rank_spec(c as int),
{
    if c == 0 || c == 8 {
        ChessType::Rook
    } else if c == 1 || c == 7 {
        ChessType::Knight
    } else if c == 2 || c == 6 {
        ChessType::Bishop
    } else if c == 3 || c == 5 {
        ChessType::Advisor
    } else {
        ChessType::King
    }
}

fn init_piece(row: i32, col: i32) -> (r: Chess)
    requires
        0 <= row < 10,
        0 <= col < 9,
    ensures
        r == init_square_spec(row as int, col as int),
{
    if row == 0 {
        Chess::Black(back_rank(col))
    } else if row == 2 && (col == 1 || col == 7) {
        Chess::Black(ChessType::Cannon)
    } else if row == 3 && col % 2 == 0 {
        Chess::Black(ChessType::Pawn)
    } else if row == 6 && col % 2 == 0 {
        Chess::Red(ChessType::Pawn)
    } else if row == 7 && (col == 1 || col == 7) {
        Chess::Red(ChessType::Cannon)
    } else if row == 9 {
        Chess::Red(back_rank(col))
    } else {
        Chess::Empty
    }
}

/// Applying a move and undoing it gives back the grid it started from, and
/// the side to move returns with it; since every derived field of a
/// well-formed board is a recomputation over (grid, turn), the whole
/// position returns bit for bit.
pub proof fn lemma_apply_undo_round_trip(g: Seq<Chess>, turn: Player, m: Move)
    requires
        g.len() == 90,
        in_board_spec(m.from),
        in_board_spec(m.to),
        m.from != m.to,
        g[sq_index(m.from)] == m.chess,
        g[sq_index(m.to)] == m.capture,
        m.chess.player_spec() == Some(m.player),
        m.player == turn,
    ensures
        undo_grid_spec(apply_grid_spec(g, m), m) == g,
        m.player.next_spec().next_spec() == turn,
{
    lemma_sq_index_bijective(m.from);
    lemma_sq_index_bijective(m.to);
    assert(undo_grid_spec(apply_grid_spec(g, m), m) =~= g);
}

/// On a well-formed board every incrementally kept field equals its
/// from-scratch recomputation over the grid: both hashes over (grid, turn)
/// and both side totals over the grid alone.
pub proof fn lemma_increments_equal_recomputation(b: &Board)
    requires
        b.wf(),
    ensures
        b.zobrist_value == hash_spec(table_spec(SEED_PRIMARY), b.chesses@, b.turn),
        b.zobrist_value_lock == hash_spec(table_spec(SEED_LOCK), b.chesses@, b.turn),
        b.vl_red == side_sum(b.chesses@, Player::Red, 90),
        b.vl_black == side_sum(b.chesses@, Player::Black, 90),
{
}

/// The two hashes are pure functions of (grid, turn): two well-formed
/// boards that agree on both agree on both hashes.
pub proof fn lemma_hash_is_function_of_state(a: &Board, b: &Board)
    requires
        a.wf(),
        b.wf(),
        a.chesses@ == b.chesses@,
        a.turn == b.turn,
    ensures
        a.zobrist_value == b.zobrist_value,
        a.zobrist_value_lock == b.zobrist_value_lock,
{
}

/// From-scratch sum of `player`'s material and positional values.
pub fn compute_side_value(grid: &Vec<Chess>, player: Player) -> (r: i32)
    requires
        grid@.len() == 90,
    ensures
        r == side_sum(grid@, player, 90),
{
    let mut sum: i32 = 0;
    let mut row: i32 = 0;
    proof {
        lemma_side_sum_bounds(grid@, player, 90);
    }
    while row < 10
        invariant
            grid@.len() == 90,
            0 <= row <= 10,
            sum == side_sum(grid@, player, row * 9),
            0 <= sum <= row * 9 * 10233,
        decreases 10 - row,
    {
        let mut col: i32 = 0;
        while col < 9
            invariant
                grid@.len() == 90,
                0 <= row < 10,
                0 <= col <= 9,
                sum == side_sum(grid@, player, row * 9 + col),
                0 <= sum <= (row * 9 + col) * 10233,
            decreases 9 - col,
        {
            let k: usize = (row * 9 + col) as usize;
            let c = grid[k];
            proof {
                lemma_side_term_bounds(c, player, k as int);
                assert((row * 9 + col) * 10233 + 10233 == (row * 9 + col + 1) * 10233)
                    by (nonlinear_arith);
                assert((row * 9 + col + 1) * 10233 <= 920970) by (nonlinear_arith)
                    requires
                        0 <= row < 10 && 0 <= col < 9,
                ;
            }
            if c.belong_to(player) {
                sum = sum + piece_square_value(c, row, col);
            }
            col = col + 1;
        }
        row = row + 1;
    }
    sum
}

/// The piece a FEN letter stands for: lower case Black, upper case Red.
pub open spec fn fen_char_piece(b: u8) -> Option<Chess> {
    if b == 107 {
        Some(Chess::Black(ChessType::King))
    } else if b == 97 {
        Some(Chess::Black(ChessType::Advisor))
    } else if b == 98 {
        Some(Chess::Black(ChessType::Bishop))
    } else if b == 110 {
        Some(Chess::Black(ChessType::Knight))
    } else if b == 114 {
        Some(Chess::Black(ChessType::Rook))
    } else if b == 99 {
        Some(Chess::Black(ChessType::Cannon))
    } else if b == 112 {
        Some(Chess::Black(ChessType::Pawn))
    } else if b == 75 {
        Some(Chess::Red(ChessType::King))
    } else if b == 65 {
        Some(Chess::Red(ChessType::Advisor))
    } else if b == 66 {
        Some(Chess::Red(ChessType::Bishop))
    } else if b == 78 {
        Some(Chess::Red(ChessType::Knight))
    } else if b == 82 {
        Some(Chess::Red(ChessType::Rook))
    } else if b == 67 {
        Some(Chess::Red(ChessType::Cannon))
    } else if b == 80 {
        Some(Chess::Red(ChessType::Pawn))
    } else {
        None
    }
}

/// The all-empty grid.
pub open spec fn empty_grid_spec() -> Seq<Chess> {
    Seq::new(90, |i: int| Chess::Empty)
}

/// One byte of the board section of a FEN string: a slash starts the next
/// rank, a digit skips that many columns, a known letter places its piece
/// when the square is real, and any other byte skips one column.
pub open spec fn fen_step_spec(st: (int, int, Seq<Chess>), b: u8) -> (int, int, Seq<Chess>) {
    let (row, col, g) = st;
    if b == 47 {
        (row + 1, 0, g)
    } else if 48 <= b <= 57 {
        (row, col + (b - 48), g)
    } else {
        match fen_char_piece(b) {
            Some(c) => if 0 <= row < 10 && 0 <= col < 9 {
                (row, col + 1, g.update(row * 9 + col, c))
            } else {
                (row, col + 1, g)
            },
            None => (row, col + 1, g),
        }
    }
}

/// The parse state after the first `n` bytes of the board section.
pub open spec fn fen_fold_spec(bytes: Seq<u8>, n: int) -> (int, int, Seq<Chess>)
    decreases n,
{
    if n <= 0 {
        (0, 0, empty_grid_spec())
    } else {
        fen_step_spec(fen_fold_spec(bytes, n - 1), bytes[n - 1])
    }
}

/// The index of the first space at or after `i`, or the length.
pub open spec fn first_space_from(bytes: Seq<u8>, i: int) -> int
    decreases bytes.len() - i,
{
    if i < 0 || i >= bytes.len() {
        bytes.len() as int
    } else if bytes[i] == 32 {
        i
    } else {
        first_space_from(bytes, i + 1)
    }
}

/// The grid a FEN string describes: the board section folded over the
/// empty grid.
pub open spec fn fen_grid_spec(bytes: Seq<u8>) -> Seq<Chess> {
    fen_fold_spec(bytes, first_space_from(bytes, 0)).2
}

/// The side to move a FEN string names: Black when the token after the
/// board section is exactly `b`, else Red.
pub open spec fn fen_turn_spec(bytes: Seq<u8>) -> Player {
    let sp = first_space_from(bytes, 0);
    if sp + 1 < bytes.len() && bytes[sp + 1] == 98 && (sp + 2 >= bytes.len() || bytes[sp + 2]
        == 32) {
        Player::Black
    } else {
        Player::Red
    }
}

impl Board {
    /// Parses a FEN string: the ten ranks from Black's side down, digits
    /// running empty columns, then the side to move. Unknown letters skip
    /// their column and squares beyond the board are dropped; FEN fields
    /// after the side to move are ignored.
    pub fn from_fen(fen: &str) -> (r: Board)
        requires
            fen.spec_bytes().len() <= 100000,
        ensures
            r.wf(),
            r.chesses@ == fen_grid_spec(fen.spec_bytes()),
            r.turn == fen_turn_spec(fen.spec_bytes()),
    {
        Board::from_fen_bytes(fen.as_bytes())
    }

    /// Parses the byte form of a FEN string; see `from_fen`.
    pub fn from_fen_bytes(bytes: &[u8]) -> (r: Board)
        requires
            bytes@.len() <= 100000,
        ensures
            r.wf(),
            r.chesses@ == fen_grid_spec(bytes@),
            r.turn == fen_turn_spec(bytes@),
    {
        let ghost bs = bytes@;
        let mut grid: Vec<Chess> = Vec::new();
        let mut k: usize = 0;
        while k < 90
            invariant
                grid@.len() == k,
                k <= 90,
                forall|q: int| 0 <= q < k ==> grid@[q] == Chess::Empty,
            decreases 90 - k,
        {
            grid.push(Chess::Empty);
            k = k + 1;
        }
        proof {
            assert(grid@ =~= empty_grid_spec());
        }
        let n = bytes.len();
        let mut i: usize = 0;
        let mut row: i32 = 0;
        let mut col: i32 = 0;
        while i < n && *vstd::slice::slice_index_get(bytes, i) != 32
            invariant
                bs == bytes@,
                n == bs.len(),
                bs.len() <= 100000,
                0 <= i <= n,
                grid@.len() == 90,
                fen_fold_spec(bs, i as int) == (row as int, col as int, grid@),
                0 <= row <= i,
                0 <= col <= 9 * (i as int),
                first_space_from(bs, 0) == first_space_from(bs, i as int),
            decreases n - i,
        {
            let b = *vstd::slice::slice_index_get(bytes, i);
            if b == 47 {
                row = row + 1;
                col = 0;
            } else if 48 <= b && b <= 57 {
                col = col + (b - 48) as i32;
            } else {
                match fen_letter(b) {
                    Some(c) => {
                        if 0 <= row && row < 10 && 0 <= col && col < 9 {
                            proof {
                                lemma_sq_index_bijective(Position { row, col });
                            }
                            grid[(row * 9 + col) as usize] = c;
                        }
                        col = col + 1;
                    },
                    None => {
                        col = col + 1;
                    },
                }
            }
            i = i + 1;
        }
        proof {
            assert(first_space_from(bs, i as int) == i as int);
            assert(grid@ == fen_grid_spec(bs));
        }
        let turn = if i + 1 < n && *vstd::slice::slice_index_get(bytes, i + 1) == 98 && (i + 2 >= n
            || *vstd::slice::slice_index_get(bytes, i + 2) == 32) {
            Player::Black
        } else {
            Player::Red
        };
        Board::from_grid(grid, turn)
    }
}

/// The piece a FEN letter stands for.
fn fen_letter(b: u8) -> (r: Option<Chess>)
    ensures
        r == fen_char_piece(b),
{
    if b == 107 {
        Some(Chess::Black(ChessType::King))
    } else if b == 97 {
        Some(Chess::Black(ChessType::Advisor))
    } else if b == 98 {
        Some(Chess::Black(ChessType::Bishop))
    } else if b == 110 {
        Some(Chess::Black(ChessType::Knight))
    } else if b == 114 {
        Some(Chess::Black(ChessType::Rook))
    } else if b == 99 {
        Some(Chess::Black(ChessType::Cannon))
    } else if b == 112 {
        Some(Chess::Black(ChessType::Pawn))
    } else if b == 75 {
        Some(Chess::Red(ChessType::King))
    } else if b == 65 {
        Some(Chess::Red(ChessType::Advisor))
    } else if b == 66 {
        Some(Chess::Red(ChessType::Bishop))
    } else if b == 78 {
        Some(Chess::Red(ChessType::Knight))
    } else if b == 82 {
        Some(Chess::Red(ChessType::Rook))
    } else if b == 67 {
        Some(Chess::Red(ChessType::Cannon))
    } else if b == 80 {
        Some(Chess::Red(ChessType::Pawn))
    } else {
        None
    }
}

} // verus!
