//! The searcher: transposition table, killer and history heuristics, the
//! move/hash/check stacks for repetition detection, and the search itself —
//! iterative deepening over a principal-variation alpha-beta with null-move
//! pruning, check extensions and a capture-only quiescence search.
//!
//! Every search routine returns the board it was handed exactly as it found
//! it: grid, turn, both hashes, both side totals and the stacks all come
//! back bit for bit.

use vstd::prelude::*;
use vstd::multiset::Multiset;

use crate::board::{
    apply_grid_spec, apply_ok_spec, grid_at, lemma_apply_undo_round_trip, lemma_xor_involution,
    undo_grid_spec, undo_ok_spec, Board,
};
use crate::constant::{BAN_VALUE, MAX, MAX_DEPTH, MIN, RECORD_SIZE};
use crate::moves::Move;
use crate::piece::{Chess, Player};
use crate::pos::lemma_sq_index_bijective;
use crate::rules::{checked_spec, valid_move_spec};

verus! {

/// What a stored score proves of the position it was computed in.
#[derive(Clone, Copy, PartialEq, Eq, Structural, Debug)]
pub enum HashFlag {
    /// An exact score.
    Exact,
    /// An upper bound: the search failed low.
    Alpha,
    /// A lower bound: the search failed high.
    Beta,
}

/// One transposition-table slot. It is trusted for a position only when its
/// lock hash matches that position's.
#[derive(Clone, Copy, Debug)]
pub struct Record {
    pub value: i32,
    pub depth: i32,
    pub flag: HashFlag,
    pub best_move: Option<Move>,
    pub zobrist_lock: u64,
}

/// All mutable search state, kept apart from the position itself.
#[derive(Debug)]
pub struct SearchState {
    /// Horizon nodes evaluated.
    pub counter: i32,
    /// Move-generator invocations.
    pub gen_counter: i32,
    /// Moves applied since the stacks were last empty.
    pub move_history: Vec<Move>,
    /// For each entry of `move_history`: the primary hash before the move.
    pub zobrist_history: Vec<u64>,
    /// For each entry of `move_history`: whether the side to move after the
    /// move stood in check.
    pub check_history: Vec<bool>,
    /// Best line of the previous iteration; interface layers may read it.
    pub best_moves_last: Vec<Move>,
    /// The transposition table.
    pub records: Vec<Option<Record>>,
    /// Distance from the search root in plies.
    pub distance: i32,
    /// Two killer moves per ply.
    pub killer_table: Vec<(Option<Move>, Option<Move>)>,
    /// History counter per (source square, target square) pair.
    pub history_table: Vec<i32>,
}

/// Index of a primary hash in the transposition table.
pub open spec fn tt_index_spec(zob: u64) -> int {
    (zob & 0x1FFFFF) as int
}

/// Clamp an unbounded score into the machine range.
pub open spec fn clamp_i32_spec(x: int) -> int {
    if x > i32::MAX {
        i32::MAX as int
    } else if x < i32::MIN {
        i32::MIN as int
    } else {
        x
    }
}

/// Every stored score is clamped inside this bound; real scores never
/// reach it, and it keeps the mate adjustments inside the machine range.
pub const TT_VALUE_BOUND: i32 = 1000000;

/// Clamp a score into the stored-score bound.
pub open spec fn clamp_tt_spec(x: int) -> int {
    if x > TT_VALUE_BOUND {
        TT_VALUE_BOUND as int
    } else if x < -TT_VALUE_BOUND {
        -TT_VALUE_BOUND as int
    } else {
        x
    }
}

/// Mate-score adjustment on the way out of the table: scores beyond the
/// mate margin move toward the root by the current distance.
pub open spec fn denorm_spec(value: int, distance: int) -> int {
    if value > 30000 {
        value - distance
    } else if value < -30000 {
        value + distance
    } else {
        value
    }
}

/// Mate-score adjustment on the way into the table: the reverse, clamped
/// into the stored-score bound.
pub open spec fn norm_spec(value: int, distance: int) -> int {
    if value > 30000 {
        clamp_tt_spec(value + distance)
    } else if value < -30000 {
        clamp_tt_spec(value - distance)
    } else {
        clamp_tt_spec(value)
    }
}

/// What a table probe returns: a score usable at this depth and window, if
/// the slot is trusted and proves one, and the slot's move for ordering.
pub open spec fn find_record_spec(
    recs: Seq<Option<Record>>,
    zob: u64,
    lock: u64,
    distance: int,
    alpha: int,
    beta: int,
    depth: int,
) -> (Option<i32>, Option<Move>) {
    match recs[tt_index_spec(zob)] {
        None => (None, None),
        Some(rec) => {
            if rec.zobrist_lock != lock {
                (None, None)
            } else {
                let v = denorm_spec(rec.value as int, distance);
                if rec.depth >= depth && (rec.flag == HashFlag::Exact || (rec.flag
                    == HashFlag::Alpha && v <= alpha) || (rec.flag == HashFlag::Beta && v
                    >= beta)) {
                    (Some(v as i32), rec.best_move)
                } else {
                    (None, rec.best_move)
                }
            }
        },
    }
}

/// One backward step of the repetition walk; see `rep_status`.
pub open spec fn rep_walk_spec(
    mh: Seq<Move>,
    zh: Seq<u64>,
    ch: Seq<bool>,
    zob: u64,
    i: int,
    self_side: bool,
    perp: bool,
    opp_perp: bool,
    recur: int,
) -> int
    decreases i + 1,
{
    if i < 0 {
        0
    } else if mh[i].capture != Chess::Empty {
        0
    } else if self_side {
        let perp2 = perp && ch[i];
        if zh[i] == zob {
            let recur2 = recur - 1;
            if recur2 <= 0 {
                1 + (if perp2 {
                    2int
                } else {
                    0
                }) + (if opp_perp {
                    4int
                } else {
                    0
                })
            } else {
                rep_walk_spec(mh, zh, ch, zob, i - 1, false, perp2, opp_perp, recur2)
            }
        } else {
            rep_walk_spec(mh, zh, ch, zob, i - 1, false, perp2, opp_perp, recur)
        }
    } else {
        let opp2 = opp_perp && ch[i];
        rep_walk_spec(mh, zh, ch, zob, i - 1, true, perp, opp2, recur)
    }
}

/// The repetition status of the current position against the stacks:
/// 0 for none; otherwise 1, plus 2 if the side to move has checked on every
/// one of its moves in the loop, plus 4 if the opponent has.
pub open spec fn rep_status_spec(
    mh: Seq<Move>,
    zh: Seq<u64>,
    ch: Seq<bool>,
    zob: u64,
    recur: int,
) -> int {
    rep_walk_spec(mh, zh, ch, zob, mh.len() - 1, false, true, true, recur)
}

/// The score a repetition status is worth: a near-mate loss for the side
/// perpetually checking, a near-mate win against one, else a small nudge
/// whose sign alternates with the ply.
pub open spec fn rep_value_spec(distance: int, rep_status: i32) -> int {
    if rep_status & 2 != 0 {
        -(BAN_VALUE as int) + distance
    } else if rep_status & 4 != 0 {
        (BAN_VALUE as int) - distance
    } else if distance % 2 == 0 {
        -20
    } else {
        20
    }
}

fn make_records() -> (r: Vec<Option<Record>>)
    ensures
        r@.len() == RECORD_SIZE,
        forall|i: int| 0 <= i < r@.len() ==> r@[i] is None,
{
    let mut r: Vec<Option<Record>> = Vec::new();
    let mut i: usize = 0;
    while i < RECORD_SIZE as usize
        invariant
            r@.len() == i,
            i <= 0x200000,
            forall|j: int| 0 <= j < i ==> r@[j] is None,
        decreases 0x200000 - i,
    {
        r.push(None);
        i = i + 1;
    }
    r
}

fn make_killers() -> (r: Vec<(Option<Move>, Option<Move>)>)
    ensures
        r@.len() == MAX_DEPTH,
        forall|i: int| 0 <= i < r@.len() ==> r@[i] == (None::<Move>, None::<Move>),
{
    let mut r: Vec<(Option<Move>, Option<Move>)> = Vec::new();
    let mut i: usize = 0;
    while i < MAX_DEPTH as usize
        invariant
            r@.len() == i,
            i <= 64,
            forall|j: int| 0 <= j < i ==> r@[j] == (None::<Move>, None::<Move>),
        decreases 64 - i,
    {
        r.push((None, None));
        i = i + 1;
    }
    r
}

fn make_history() -> (r: Vec<i32>)
    ensures
        r@.len() == 8100,
        forall|i: int| 0 <= i < r@.len() ==> r@[i] == 0,
{
    let mut r: Vec<i32> = Vec::new();
    let mut i: usize = 0;
    while i < 8100
        invariant
            r@.len() == i,
            i <= 8100,
            forall|j: int| 0 <= j < i ==> r@[j] == 0,
        decreases 8100 - i,
    {
        r.push(0);
        i = i + 1;
    }
    r
}

impl SearchState {
    /// The sizes and alignments that every search routine relies on.
    pub open spec fn wf(&self) -> bool {
        &&& self.records@.len() == RECORD_SIZE
        &&& self.killer_table@.len() == MAX_DEPTH
        &&& self.history_table@.len() == 8100
        &&& self.move_history@.len() == self.zobrist_history@.len()
        &&& self.move_history@.len() == self.check_history@.len()
        &&& 0 <= self.distance <= 1000000
        &&& forall|i: int|
            0 <= i < self.records@.len() ==> (#[trigger] self.records@[i] matches Some(rec)
                ==> -1000000 <= rec.value <= 1000000)
    }



    /// Fresh search state with an empty table and cleared stacks.
    pub fn new() -> (r: SearchState)
        ensures
            r.wf(),
            r.move_history@.len() == 0,
            r.distance == 0,
    {
        SearchState {
            counter: 0,
            gen_counter: 0,
            move_history: Vec::new(),
            zobrist_history: Vec::new(),
            check_history: Vec::new(),
            best_moves_last: Vec::new(),
            records: make_records(),
            distance: 0,
            killer_table: make_killers(),
            history_table: make_history(),
        }
    }

    /// Clears everything for a fresh search.
    pub fn reset(&mut self)
        ensures
            final(self).wf(),
            final(self).counter == 0,
            final(self).gen_counter == 0,
            final(self).move_history@.len() == 0,
            final(self).zobrist_history@.len() == 0,
            final(self).check_history@.len() == 0,
            final(self).best_moves_last@.len() == 0,
            final(self).distance == 0,
            forall|i: int| 0 <= i < final(self).records@.len() ==> final(self).records@[i] is None,
            forall|i: int|
                0 <= i < final(self).killer_table@.len() ==> final(self).killer_table@[i] == (
                None::<Move>,
                None::<Move>,
            ),
            forall|i: int|
                0 <= i < final(self).history_table@.len() ==> final(self).history_table@[i] == 0,
    {
        self.counter = 0;
        self.gen_counter = 0;
        self.move_history = Vec::new();
        self.zobrist_history = Vec::new();
        self.check_history = Vec::new();
        self.best_moves_last = Vec::new();
        self.records = make_records();
        self.distance = 0;
        self.killer_table = make_killers();
        self.history_table = make_history();
    }

    /// Applies a move to the board and records, as one step: the hash that
    /// held before it, the move itself, and whether the side now to move
    /// stands in check.
    pub fn push_move(&mut self, board: &mut Board, m: &Move)
        requires
            old(self).wf(),
            old(board).wf(),
            apply_ok_spec(old(board), *m),
            old(self).distance < 1000000,
        ensures
            final(self).wf(),
            final(board).wf(),
            final(board).chesses@ == apply_grid_spec(old(board).chesses@, *m),
            final(board).turn == m.player.next_spec(),
            final(board).select_pos == old(board).select_pos,
            final(board).zob_table == old(board).zob_table,
            final(board).zob_table_lock == old(board).zob_table_lock,
            final(self).move_history@ == old(self).move_history@.push(*m),
            final(self).zobrist_history@ == old(self).zobrist_history@.push(
                old(board).zobrist_value,
            ),
            final(self).check_history@ == old(self).check_history@.push(
                checked_spec(final(board).chesses@, final(board).turn),
            ),
            final(self).distance == old(self).distance + 1,
            final(self).records@ == old(self).records@,
            final(self).killer_table@ == old(self).killer_table@,
            final(self).history_table@ == old(self).history_table@,
            final(self).best_moves_last@ == old(self).best_moves_last@,
    {
        self.zobrist_history.push(board.zobrist_value);
        board.apply_move(m);
        let in_check = board.is_checked(board.turn);
        self.check_history.push(in_check);
        self.move_history.push(*m);
        self.distance = self.distance + 1;
    }

    /// Undoes a move applied by `push_move` and pops the step's records.
    pub fn pop_move(&mut self, board: &mut Board, m: &Move)
        requires
            old(self).wf(),
            old(board).wf(),
            undo_ok_spec(old(board), *m),
            old(self).move_history@.len() > 0,
            old(self).distance >= 1,
        ensures
            final(self).wf(),
            final(board).wf(),
            final(board).chesses@ == undo_grid_spec(old(board).chesses@, *m),
            final(board).turn == m.player,
            final(board).select_pos == old(board).select_pos,
            final(board).zob_table == old(board).zob_table,
            final(board).zob_table_lock == old(board).zob_table_lock,
            final(self).move_history@ == old(self).move_history@.drop_last(),
            final(self).zobrist_history@ == old(self).zobrist_history@.drop_last(),
            final(self).check_history@ == old(self).check_history@.drop_last(),
            final(self).distance == old(self).distance - 1,
            final(self).records@ == old(self).records@,
            final(self).killer_table@ == old(self).killer_table@,
            final(self).history_table@ == old(self).history_table@,
            final(self).best_moves_last@ == old(self).best_moves_last@,
    {
        self.zobrist_history.pop();
        self.check_history.pop();
        self.move_history.pop();
        board.undo_move(m);
        self.distance = self.distance - 1;
    }

    /// A null move: the turn flips; the stacks are left alone, so the
    /// repetition walk never sees a null move.
    pub fn push_null_move(&mut self, board: &mut Board)
        requires
            old(self).wf(),
            old(board).wf(),
            old(self).distance < 1000000,
        ensures
            final(self).wf(),
            final(board).wf(),
            final(board).chesses@ == old(board).chesses@,
            final(board).turn == old(board).turn.next_spec(),
            final(board).select_pos == old(board).select_pos,
            final(board).zob_table == old(board).zob_table,
            final(board).zob_table_lock == old(board).zob_table_lock,
            final(board).zobrist_value == old(board).zobrist_value ^ crate::zobrist::table_spec(
                crate::zobrist::SEED_PRIMARY,
            )[1260],
            final(board).zobrist_value_lock == old(board).zobrist_value_lock
                ^ crate::zobrist::table_spec(crate::zobrist::SEED_LOCK)[1260],
            final(self).move_history@ == old(self).move_history@,
            final(self).zobrist_history@ == old(self).zobrist_history@,
            final(self).check_history@ == old(self).check_history@,
            final(self).distance == old(self).distance + 1,
            final(self).records@ == old(self).records@,
            final(self).killer_table@ == old(self).killer_table@,
            final(self).history_table@ == old(self).history_table@,
            final(self).best_moves_last@ == old(self).best_moves_last@,
    {
        board.do_null_move();
        self.distance = self.distance + 1;
    }

    /// Takes a null move back.
    pub fn pop_null_move(&mut self, board: &mut Board)
        requires
            old(self).wf(),
            old(board).wf(),
            old(self).distance >= 1,
        ensures
            final(self).wf(),
            final(board).wf(),
            final(board).chesses@ == old(board).chesses@,
            final(board).turn == old(board).turn.next_spec(),
            final(board).select_pos == old(board).select_pos,
            final(board).zob_table == old(board).zob_table,
            final(board).zob_table_lock == old(board).zob_table_lock,
            final(board).zobrist_value == old(board).zobrist_value ^ crate::zobrist::table_spec(
                crate::zobrist::SEED_PRIMARY,
            )[1260],
            final(board).zobrist_value_lock == old(board).zobrist_value_lock
                ^ crate::zobrist::table_spec(crate::zobrist::SEED_LOCK)[1260],
            final(self).move_history@ == old(self).move_history@,
            final(self).zobrist_history@ == old(self).zobrist_history@,
            final(self).check_history@ == old(self).check_history@,
            final(self).distance == old(self).distance - 1,
            final(self).records@ == old(self).records@,
            final(self).killer_table@ == old(self).killer_table@,
            final(self).history_table@ == old(self).history_table@,
            final(self).best_moves_last@ == old(self).best_moves_last@,
    {
        board.undo_null_move();
        self.distance = self.distance - 1;
    }

    /// Probes the table at the primary-hash slot. The slot counts only if
    /// its lock hash matches; its score counts only from at least the asked
    /// depth, and only when its flag settles this window.
    pub fn find_record(&self, board: &Board, alpha: i32, beta: i32, depth: i32) -> (r: (
        Option<i32>,
        Option<Move>,
    ))
        requires
            self.wf(),
        ensures
            r == find_record_spec(
                self.records@,
                board.zobrist_value,
                board.zobrist_value_lock,
                self.distance as int,
                alpha as int,
                beta as int,
                depth as int,
            ),
            r.0 matches Some(v) ==> -1000000 - self.distance <= v <= 1000000 + self.distance,
    {
        let zob = board.zobrist_value;
        proof {
            assert((zob & 0x1FFFFF) < 0x200000) by (bit_vector);
        }
        let index: usize = (zob & 0x1FFFFF) as usize;
        match &self.records[index] {
            Some(record) => {
                if record.zobrist_lock == board.zobrist_value_lock {
                    let value: i32 = if record.value > 30000 {
                        record.value - self.distance
                    } else if record.value < -30000 {
                        record.value + self.distance
                    } else {
                        record.value
                    };
                    if record.depth >= depth {
                        match record.flag {
                            HashFlag::Exact => {
                                return (Some(value), record.best_move);
                            },
                            HashFlag::Alpha => {
                                if value <= alpha {
                                    return (Some(value), record.best_move);
                                }
                            },
                            HashFlag::Beta => {
                                if value >= beta {
                                    return (Some(value), record.best_move);
                                }
                            },
                        }
                    }
                    (None, record.best_move)
                } else {
                    (None, None)
                }
            },
            None => (None, None),
        }
    }

    /// Stores a score in the table under the current hashes, mate scores
    /// adjusted away from the root. Depth-preferred replacement: a deeper
    /// slot is never overwritten by a shallower one.
    pub fn add_record(
        &mut self,
        board: &Board,
        depth: i32,
        value: i32,
        flag: HashFlag,
        best_move: Option<Move>,
    )
        requires
            old(self).wf(),
        ensures
            final(self).wf(),
            ({
                let idx = tt_index_spec(board.zobrist_value);
                let stored = Record {
                    value: norm_spec(value as int, old(self).distance as int) as i32,
                    depth,
                    flag,
                    best_move,
                    zobrist_lock: board.zobrist_value_lock,
                };
                if old(self).records@[idx] matches Some(old_rec) && old_rec.depth > depth {
                    final(self).records@ == old(self).records@
                } else {
                    final(self).records@ == old(self).records@.update(idx, Some(stored))
                }
            }),
            final(self).move_history@ == old(self).move_history@,
            final(self).zobrist_history@ == old(self).zobrist_history@,
            final(self).check_history@ == old(self).check_history@,
            final(self).distance == old(self).distance,
            final(self).killer_table@ == old(self).killer_table@,
            final(self).history_table@ == old(self).history_table@,
            final(self).counter == old(self).counter,
            final(self).gen_counter == old(self).gen_counter,
            final(self).best_moves_last@ == old(self).best_moves_last@,
    {
        let zob = board.zobrist_value;
        proof {
            assert((zob & 0x1FFFFF) < 0x200000) by (bit_vector);
        }
        let index: usize = (zob & 0x1FFFFF) as usize;
        match &self.records[index] {
            Some(old_record) => {
                if old_record.depth > depth {
                    return;
                }
            },
            None => {
            },
        }
        let wide: i64 = if value > 30000 {
            value as i64 + self.distance as i64
        } else if value < -30000 {
            value as i64 - self.distance as i64
        } else {
            value as i64
        };
        let stored_value: i32 = clamp_tt(wide);
        self.records[index] = Some(
            Record {
                value: stored_value,
                depth,
                flag,
                best_move,
                zobrist_lock: board.zobrist_value_lock,
            },
        );
    }

    /// Walks the stacks backward, stopping at the first capture, and
    /// reports whether the current position already occurred, with the
    /// perpetual-check bits for either side.
    pub fn rep_status(&self, board: &Board, recur: i32) -> (r: i32)
        requires
            self.wf(),
            recur > i32::MIN,
        ensures
            r == rep_status_spec(
                self.move_history@,
                self.zobrist_history@,
                self.check_history@,
                board.zobrist_value,
                recur as int,
            ),
    {
        let ghost mh = self.move_history@;
        let ghost zh = self.zobrist_history@;
        let ghost ch = self.check_history@;
        let zob = board.zobrist_value;
        let mut self_side = false;
        let mut perp_check = true;
        let mut opp_perp_check = true;
        let mut recur_left = recur;
        let len = self.move_history.len();
        let mut i = len;
        while i > 0
            invariant
                self.wf(),
                mh == self.move_history@,
                zh == self.zobrist_history@,
                ch == self.check_history@,
                zob == board.zobrist_value,
                0 <= i <= len,
                len == mh.len(),
                recur_left > i32::MIN,
                rep_status_spec(mh, zh, ch, zob, recur as int) == rep_walk_spec(
                    mh,
                    zh,
                    ch,
                    zob,
                    i - 1,
                    self_side,
                    perp_check,
                    opp_perp_check,
                    recur_left as int,
                ),
            decreases i,
        {
            i = i - 1;
            let m = &self.move_history[i];
            if m.capture != Chess::Empty {
                return 0;
            }
            if self_side {
                perp_check = perp_check && self.check_history[i];
                if self.zobrist_history[i] == zob {
                    recur_left = recur_left - 1;
                    if recur_left <= 0 {
                        let mut result: i32 = 1;
                        if perp_check {
                            result = result + 2;
                        }
                        if opp_perp_check {
                            result = result + 4;
                        }
                        return result;
                    }
                }
            } else {
                opp_perp_check = opp_perp_check && self.check_history[i];
            }
            self_side = !self_side;
        }
        0
    }

    /// Scores a repetition status for the side to move.
    pub fn rep_value(&self, rep_status: i32) -> (r: i32)
        requires
            self.wf(),
        ensures
            r == rep_value_spec(self.distance as int, rep_status),
    {
        let val_loss = -BAN_VALUE + self.distance;
        let val_win = BAN_VALUE - self.distance;
        if (rep_status & 2) != 0 {
            return val_loss;
        }
        if (rep_status & 4) != 0 {
            return val_win;
        }
        if (self.distance % 2) == 0 {
            -20
        } else {
            20
        }
    }

    /// Null-move pruning is safe only while the side to move keeps enough
    /// positional weight on the board.
    fn null_move_okay(&self, board: &Board) -> (r: bool)
        requires
            board.chesses@.len() == 90,
        ensures
            r == (crate::board::pst_sum(board.chesses@, board.turn, 90) > 200),
    {
        board.get_player_score(board.turn) > 200
    }
}

/// Saturating narrowing of a wide intermediate score into the stored bound.
fn clamp_tt(x: i64) -> (r: i32)
    ensures
        r as int == clamp_tt_spec(x as int),
{
    if x > TT_VALUE_BOUND as i64 {
        TT_VALUE_BOUND
    } else if x < -TT_VALUE_BOUND as i64 {
        -TT_VALUE_BOUND
    } else {
        x as i32
    }
}

/// Flat index of a (source, target) pair in the history table.
pub open spec fn hist_index_spec(m: Move) -> int {
    (m.from.row * 9 + m.from.col) * 90 + (m.to.row * 9 + m.to.col)
}

/// The history counter of a move; 0 when its squares are off the board.
pub open spec fn hist_lookup_spec(hist: Seq<i32>, m: Move) -> int {
    let idx = hist_index_spec(m);
    if 0 <= idx < 8100 {
        hist[idx] as int
    } else {
        0
    }
}

/// The new killer pair after a move caused a cutoff: the move takes the
/// first slot, pushing a different old first killer to the second.
pub open spec fn killer_update_spec(pair: (Option<Move>, Option<Move>), m: Move) -> (
    Option<Move>,
    Option<Move>,
) {
    match pair.0 {
        Some(k1) => if k1 == m {
            pair
        } else {
            (Some(m), pair.0)
        },
        None => (Some(m), pair.1),
    }
}

/// The ordering key of a move, smaller first: the table's move, then the
/// two killers, then captures by most valuable victim and least valuable
/// attacker together with the history counter.
pub open spec fn sort_key_spec(
    hist: Seq<i32>,
    k1: Option<Move>,
    k2: Option<Move>,
    hm: Option<Move>,
    m: Move,
) -> int {
    if hm == Some(m) {
        i64::MIN as int
    } else if k1 == Some(m) {
        i64::MIN as int + 1
    } else if k2 == Some(m) {
        i64::MIN as int + 2
    } else {
        let capture_gain: int = if m.capture != Chess::Empty {
            m.capture.material_of_spec() * 10 - m.chess.material_of_spec()
        } else {
            0
        };
        -(capture_gain + hist_lookup_spec(hist, m))
    }
}

impl SearchState {
    /// The history counter of a move.
    fn get_history_score(&self, mv: &Move) -> (r: i32)
        requires
            self.wf(),
        ensures
            r as int == hist_lookup_spec(self.history_table@, *mv),
    {
        let idx: i64 = (mv.from.row as i64 * 9 + mv.from.col as i64) * 90 + (mv.to.row as i64 * 9
            + mv.to.col as i64);
        if 0 <= idx && idx < 8100 {
            self.history_table[idx as usize]
        } else {
            0
        }
    }

    /// Records a cutoff move as a killer for the current ply.
    fn update_killer_move(&mut self, mv: &Move, depth: usize)
        requires
            old(self).wf(),
        ensures
            final(self).wf(),
            final(self).killer_table@ == (if depth >= 64 {
                old(self).killer_table@
            } else {
                old(self).killer_table@.update(
                    depth as int,
                    killer_update_spec(old(self).killer_table@[depth as int], *mv),
                )
            }),
            final(self).records@ == old(self).records@,
            final(self).history_table@ == old(self).history_table@,
            final(self).move_history@ == old(self).move_history@,
            final(self).zobrist_history@ == old(self).zobrist_history@,
            final(self).check_history@ == old(self).check_history@,
            final(self).distance == old(self).distance,
            final(self).counter == old(self).counter,
            final(self).gen_counter == old(self).gen_counter,
            final(self).best_moves_last@ == old(self).best_moves_last@,
    {
        if depth >= self.killer_table.len() {
            return;
        }
        let pair = self.killer_table[depth];
        match pair.0 {
            Some(k1) => {
                if !(k1 == *mv) {
                    self.killer_table[depth] = (Some(*mv), pair.0);
                } else {
                    proof {
                        assert(final(self).killer_table@ =~= old(self).killer_table@.update(
                            depth as int,
                            killer_update_spec(old(self).killer_table@[depth as int], *mv),
                        ));
                    }
                }
            },
            None => {
                self.killer_table[depth] = (Some(*mv), pair.1);
            },
        }
    }

    /// Rewards a cutoff move with the square of the depth it cut at.
    fn update_history(&mut self, mv: &Move, depth: i32)
        requires
            old(self).wf(),
            0 <= depth <= 10000,
        ensures
            final(self).wf(),
            ({
                let idx = hist_index_spec(*mv);
                if 0 <= idx < 8100 {
                    final(self).history_table@ == old(self).history_table@.update(
                        idx,
                        clamp_i32_spec(
                            old(self).history_table@[idx] + depth * depth,
                        ) as i32,
                    )
                } else {
                    final(self).history_table@ == old(self).history_table@
                }
            }),
            final(self).records@ == old(self).records@,
            final(self).killer_table@ == old(self).killer_table@,
            final(self).move_history@ == old(self).move_history@,
            final(self).zobrist_history@ == old(self).zobrist_history@,
            final(self).check_history@ == old(self).check_history@,
            final(self).distance == old(self).distance,
            final(self).counter == old(self).counter,
            final(self).gen_counter == old(self).gen_counter,
            final(self).best_moves_last@ == old(self).best_moves_last@,
    {
        let idx: i64 = (mv.from.row as i64 * 9 + mv.from.col as i64) * 90 + (mv.to.row as i64 * 9
            + mv.to.col as i64);
        if 0 <= idx && idx < 8100 {
            proof {
                assert(depth as i64 * depth as i64 <= 100000000) by (nonlinear_arith)
                    requires
                        0 <= depth <= 10000,
                ;
            }
            let sq: i64 = depth as i64 * depth as i64;
            let wide: i64 = self.history_table[idx as usize] as i64 + sq;
            let bumped: i32 = if wide > i32::MAX as i64 {
                i32::MAX
            } else if wide < i32::MIN as i64 {
                i32::MIN
            } else {
                wide as i32
            };
            self.history_table[idx as usize] = bumped;
        }
    }

    /// The ordering key of one move.
    fn move_key(&self, mv: &Move, hash_move: Option<Move>, k1: Option<Move>, k2: Option<Move>)
        -> (r: i64)
        requires
            self.wf(),
        ensures
            r as int == sort_key_spec(self.history_table@, k1, k2, hash_move, *mv),
    {
        match hash_move {
            Some(h) => {
                if h == *mv {
                    return i64::MIN;
                }
            },
            None => {
            },
        }
        match k1 {
            Some(k) => {
                if k == *mv {
                    return i64::MIN + 1;
                }
            },
            None => {
            },
        }
        match k2 {
            Some(k) => {
                if k == *mv {
                    return i64::MIN + 2;
                }
            },
            None => {
            },
        }
        let capture_gain: i64 = if !(mv.capture == Chess::Empty) {
            mv.capture.material_value() as i64 * 10 - mv.chess.material_value() as i64
        } else {
            0
        };
        -(capture_gain + self.get_history_score(mv) as i64)
    }

    /// Reorders the moves best first: the table's move, then the killers of
    /// the current ply, then captures by victim value and the history
    /// counters. The result holds exactly the moves that came in.
    pub fn sort_moves(&self, moves: &mut Vec<Move>, hash_move: Option<Move>)
        requires
            self.wf(),
        ensures
            final(moves)@.to_multiset() == old(moves)@.to_multiset(),
            final(moves)@.len() == old(moves)@.len(),
            forall|i: int|
                0 <= i < final(moves)@.len() ==> old(moves)@.contains(#[trigger] final(moves)@[i]),
            ({
                let k1 = self.killer_slot(0);
                let k2 = self.killer_slot(1);
                forall|a: int, b: int|
                    0 <= a <= b < final(moves)@.len() ==> sort_key_spec(
                        self.history_table@,
                        k1,
                        k2,
                        hash_move,
                        #[trigger] final(moves)@[a],
                    ) <= sort_key_spec(
                        self.history_table@,
                        k1,
                        k2,
                        hash_move,
                        #[trigger] final(moves)@[b],
                    )
            }),
    {
        broadcast use vstd::seq_lib::group_to_multiset_ensures;
        broadcast use vstd::multiset::group_multiset_axioms;

        let (k1, k2) = if self.distance >= 0 && (self.distance as usize)
            < self.killer_table.len() {
            self.killer_table[self.distance as usize]
        } else {
            (None, None)
        };
        let ghost hist = self.history_table@;
        let ghost orig = moves@;
        let mut out: Vec<Move> = Vec::new();
        while moves.len() > 0
            invariant
                self.wf(),
                hist == self.history_table@,
                k1 == self.killer_slot(0),
                k2 == self.killer_slot(1),
                out@.to_multiset().add(moves@.to_multiset()) =~= orig.to_multiset(),
                out@.len() + moves@.len() == orig.len(),
                forall|i: int| 0 <= i < out@.len() ==> orig.contains(#[trigger] out@[i]),
                forall|a: int, b: int|
                    0 <= a <= b < out@.len() ==> sort_key_spec(
                        hist,
                        k1,
                        k2,
                        hash_move,
                        #[trigger] out@[a],
                    ) <= sort_key_spec(hist, k1, k2, hash_move, #[trigger] out@[b]),
                forall|a: int, j: int|
                    0 <= a < out@.len() && 0 <= j < moves@.len() ==> sort_key_spec(
                        hist,
                        k1,
                        k2,
                        hash_move,
                        #[trigger] out@[a],
                    ) <= sort_key_spec(hist, k1, k2, hash_move, #[trigger] moves@[j]),
            decreases moves@.len(),
        {
            let mut jmin: usize = 0;
            let mut best_key: i64 = self.move_key(&moves[0], hash_move, k1, k2);
            let mut j: usize = 1;
            while j < moves.len()
                invariant
                    self.wf(),
                    hist == self.history_table@,
                    moves@.len() > 0,
                    0 <= jmin < moves@.len(),
                    1 <= j <= moves@.len(),
                    best_key as int == sort_key_spec(hist, k1, k2, hash_move, moves@[jmin as int]),
                    forall|q: int|
                        0 <= q < j ==> best_key as int <= sort_key_spec(
                            hist,
                            k1,
                            k2,
                            hash_move,
                            #[trigger] moves@[q],
                        ),
                decreases moves@.len() - j,
            {
                let key = self.move_key(&moves[j], hash_move, k1, k2);
                if key < best_key {
                    best_key = key;
                    jmin = j;
                }
                j = j + 1;
            }
            let ghost pre = moves@;
            let ghost out_pre = out@;
            let m = moves.remove(jmin);
            out.push(m);
            proof {
                assert(m == pre[jmin as int]);
                assert(pre =~= moves@.insert(jmin as int, m));
                vstd::seq_lib::to_multiset_insert(moves@, jmin as int, m);
                vstd::seq_lib::to_multiset_build(out_pre, m);
                assert((out_pre.push(m)).to_multiset() == out_pre.to_multiset().insert(m));
                assert(out@.to_multiset() == out_pre.to_multiset().insert(m));
                assert(out@.to_multiset().add(moves@.to_multiset()) =~= out_pre.to_multiset().add(
                    pre.to_multiset(),
                ));
                assert(orig.to_multiset().count(m) > 0);
                assert(orig.contains(m)) by {
                    vstd::seq_lib::to_multiset_contains(orig, m);
                }
            }
        }
        proof {
            assert(moves@.to_multiset() =~= Multiset::<Move>::empty());
            assert(out@.to_multiset() =~= orig.to_multiset());
        }
        *moves = out;
    }

    /// The killer of the current ply in slot `which`, if the ply is inside
    /// the table.
    pub open spec fn killer_slot(&self, which: int) -> Option<Move> {
        if 0 <= self.distance < 64 {
            let pair = self.killer_table@[self.distance as int];
            if which == 0 {
                pair.0
            } else {
                pair.1
            }
        } else {
            None
        }
    }
}

/// Equality of everything a position holds.
pub open spec fn board_same(a: Board, b: Board) -> bool {
    &&& a.chesses@ == b.chesses@
    &&& a.turn == b.turn
    &&& a.zobrist_value == b.zobrist_value
    &&& a.zobrist_value_lock == b.zobrist_value_lock
    &&& a.vl_red == b.vl_red
    &&& a.vl_black == b.vl_black
    &&& a.select_pos == b.select_pos
    &&& a.zob_table == b.zob_table
    &&& a.zob_table_lock == b.zob_table_lock
}

/// Equality of the three repetition stacks and the root distance.
pub open spec fn stacks_same(a: SearchState, b: SearchState) -> bool {
    &&& a.move_history@ == b.move_history@
    &&& a.zobrist_history@ == b.zobrist_history@
    &&& a.check_history@ == b.check_history@
    &&& a.distance == b.distance
}

/// The remaining room under the ply bound; every search step spends one.
pub open spec fn search_measure(d: int) -> nat {
    if d > 64 {
        0
    } else {
        (65 - d) as nat
    }
}

/// The hypotheses under which the search must report mate: the node is
/// inside the ply bound, the table probe settles nothing here, no
/// repetition fires, there is depth left, the null-move gate is shut, and
/// the side to move has no legal move.
pub open spec fn mate_conditions_spec(
    s: &SearchState,
    b: &Board,
    depth: i32,
    alpha: int,
    beta: int,
    allow_null: bool,
) -> bool {
    &&& s.distance <= MAX_DEPTH
    &&& find_record_spec(
        s.records@,
        b.zobrist_value,
        b.zobrist_value_lock,
        s.distance as int,
        alpha,
        beta,
        depth as int,
    ).0 is None
    &&& (s.distance > 0 ==> rep_status_spec(
        s.move_history@,
        s.zobrist_history@,
        s.check_history@,
        b.zobrist_value,
        1,
    ) <= 0)
    &&& depth >= 1
    &&& !(allow_null && depth >= 3 && !checked_spec(b.chesses@, b.turn) && crate::board::pst_sum(
        b.chesses@,
        b.turn,
        90,
    ) > 200)
    &&& !exists_legal_spec(b.chesses@, b.turn)
}

/// Whether the side to move has any fully legal move at all.
pub open spec fn exists_legal_spec(g: Seq<Chess>, turn: Player) -> bool {
    exists|m: Move| crate::rules::legal_move_spec(g, turn, m)
}

/// What the move generator promises of each move, as the search needs it.
pub open spec fn gen_move_ok(g: Seq<Chess>, turn: Player, m: Move) -> bool {
    &&& valid_move_spec(g, turn, m)
    &&& m.player == turn
    &&& m.chess == grid_at(g, m.from)
    &&& m.capture == grid_at(g, m.to)
}

impl SearchState {

    /// Tries one capture (or evasion) inside the quiescence search: applies
    /// it, skips it if it leaves the mover's King attacked, recurses with
    /// the window negated, and takes it back.
    #[verifier::rlimit(100)]
    fn quies_move(&mut self, board: &mut Board, m: &Move, alpha: i32, beta: i32) -> (r: Option<
        i32,
    >)
        requires
            old(self).wf(),
            old(board).wf(),
            MIN <= alpha < beta <= MAX,
            old(self).distance <= MAX_DEPTH,
            gen_move_ok(old(board).chesses@, old(board).turn, *m),
        ensures
            final(self).wf(),
            final(board).wf(),
            board_same(*final(board), *old(board)),
            stacks_same(*final(self), *old(self)),
            r matches Some(v) ==> -1000000 <= v <= 1000000,
        decreases search_measure(self.distance as int), 0int,
    {
        let ghost b0 = *board;
        let ghost s0 = *self;
        let ghost g0 = board.chesses@;
        let ghost turn0 = board.turn;
        proof {
            lemma_sq_index_bijective(m.from);
            lemma_sq_index_bijective(m.to);
        }
        self.push_move(board, m);
        if board.is_checked(board.turn.next()) {
            self.pop_move(board, m);
            proof {
                lemma_apply_undo_round_trip(g0, turn0, *m);
                assert(board.chesses@ == g0);
                assert(s0.move_history@.push(*m).drop_last() =~= s0.move_history@);
                assert(s0.zobrist_history@.push(b0.zobrist_value).drop_last()
                    =~= s0.zobrist_history@);
                assert(s0.check_history@.push(
                    checked_spec(apply_grid_spec(g0, *m), m.player.next_spec()),
                ).drop_last() =~= s0.check_history@);
            }
            return None;
        }
        let v = -self.quies(board, -beta, -alpha);
        self.pop_move(board, m);
        proof {
            lemma_apply_undo_round_trip(g0, turn0, *m);
            assert(board.chesses@ == g0);
            assert(s0.move_history@.push(*m).drop_last() =~= s0.move_history@);
            assert(s0.zobrist_history@.push(b0.zobrist_value).drop_last()
                =~= s0.zobrist_history@);
            assert(s0.check_history@.push(
                checked_spec(apply_grid_spec(g0, *m), m.player.next_spec()),
            ).drop_last() =~= s0.check_history@);
        }
        Some(v)
    }

    /// Capture-only search past the horizon: stand pat on the static value,
    /// then try captures — or every move while in check — until quiet.
    /// The board and the stacks come back exactly as they went in.
    #[verifier::rlimit(100)]
    pub fn quies(&mut self, board: &mut Board, alpha: i32, beta: i32) -> (r: i32)
        requires
            old(self).wf(),
            old(board).wf(),
            MIN <= alpha < beta <= MAX,
        ensures
            final(self).wf(),
            final(board).wf(),
            board_same(*final(board), *old(board)),
            stacks_same(*final(self), *old(self)),
            -1000000 <= r <= 1000000,
            old(self).distance > MAX_DEPTH ==> r == crate::board::evaluate_spec(
                old(board).chesses@,
                old(board).turn,
            ),
            old(self).distance <= MAX_DEPTH ==> alpha <= r <= beta,
            old(self).distance <= MAX_DEPTH && crate::board::evaluate_spec(
                old(board).chesses@,
                old(board).turn,
            ) >= beta ==> r == beta,
            old(self).distance <= MAX_DEPTH && crate::board::evaluate_spec(
                old(board).chesses@,
                old(board).turn,
            ) < beta ==> r >= crate::board::evaluate_spec(old(board).chesses@, old(board).turn),
        decreases search_measure(self.distance as int), 1int,
    {
        let ghost b0 = *board;
        let ghost s0 = *self;
        let ghost g0 = board.chesses@;
        let ghost turn0 = board.turn;
        let mut cur_alpha = alpha;
        if self.distance > MAX_DEPTH {
            return board.evaluate(board.turn);
        }
        let stand_pat = board.evaluate(board.turn);
        if stand_pat >= beta {
            return beta;
        }
        if stand_pat > cur_alpha {
            cur_alpha = stand_pat;
        }
        let in_check = board.is_checked(board.turn);
        let mut moves = if in_check {
            board.generate_move(false)
        } else {
            board.generate_move(true)
        };
        if self.gen_counter < i32::MAX {
            self.gen_counter = self.gen_counter + 1;
        }
        let ghost gen = moves@;
        self.sort_moves(&mut moves, None);
        let mut mi: usize = 0;
        while mi < moves.len()
            invariant
                self.wf(),
                board.wf(),
                board_same(*board, b0),
                stacks_same(*self, s0),
                b0 == *old(board),
                stacks_same(s0, *old(self)),
                b0.wf(),
                s0.wf(),
                g0 == b0.chesses@,
                turn0 == b0.turn,
                s0.distance <= MAX_DEPTH,
                MIN <= cur_alpha < beta <= MAX,
                alpha <= cur_alpha,
                stand_pat == crate::board::evaluate_spec(g0, turn0),
                stand_pat < beta ==> cur_alpha >= stand_pat,
                mi <= moves@.len(),
                forall|q: int| 0 <= q < gen.len() ==> gen_move_ok(g0, turn0, #[trigger] gen[q]),
                forall|q: int| 0 <= q < moves@.len() ==> gen.contains(#[trigger] moves@[q]),
            decreases moves@.len() - mi,
        {
            let m = moves[mi];
            proof {
                assert(gen.contains(m));
                assert(gen_move_ok(g0, turn0, m));
            }
            match self.quies_move(board, &m, cur_alpha, beta) {
                None => {
                },
                Some(v) => {
                    if v >= beta {
                        return beta;
                    }
                    if v > cur_alpha {
                        cur_alpha = v;
                    }
                },
            }
            mi = mi + 1;
        }
        cur_alpha
    }


    /// Searches one generated move from the current node: applies it,
    /// skips it if it leaves the mover's King attacked, extends by a ply
    /// when it gives check, searches full-window or scouts with a re-search
    /// window as asked, and takes it back.
    #[verifier::rlimit(100)]
    fn search_move(
        &mut self,
        board: &mut Board,
        m: &Move,
        depth: i32,
        alpha: i32,
        beta: i32,
        full_window: bool,
    ) -> (r: Option<i32>)
        requires
            old(self).wf(),
            old(board).wf(),
            MIN <= alpha < beta <= MAX,
            1 <= depth <= MAX_DEPTH,
            old(self).distance <= MAX_DEPTH,
            gen_move_ok(old(board).chesses@, old(board).turn, *m),
        ensures
            final(self).wf(),
            final(board).wf(),
            board_same(*final(board), *old(board)),
            stacks_same(*final(self), *old(self)),
            r matches Some(v) ==> -1001000 <= v <= 1001000,
            r is Some ==> crate::rules::legal_move_spec(
                old(board).chesses@,
                old(board).turn,
                *m,
            ),
        decreases search_measure(self.distance as int), depth, 1int,
    {
        let ghost b0 = *board;
        let ghost s0 = *self;
        let ghost g0 = board.chesses@;
        let ghost turn0 = board.turn;
        proof {
            lemma_sq_index_bijective(m.from);
            lemma_sq_index_bijective(m.to);
        }
        self.push_move(board, m);
        if board.is_checked(board.turn.next()) {
            self.pop_move(board, m);
            proof {
                lemma_apply_undo_round_trip(g0, turn0, *m);
                assert(board.chesses@ == g0);
                assert(s0.move_history@.push(*m).drop_last() =~= s0.move_history@);
                assert(s0.zobrist_history@.push(b0.zobrist_value).drop_last()
                    =~= s0.zobrist_history@);
                assert(s0.check_history@.push(
                    checked_spec(apply_grid_spec(g0, *m), m.player.next_spec()),
                ).drop_last() =~= s0.check_history@);
            }
            return None;
        }
        let new_depth = if board.is_checked(board.turn) {
            depth
        } else {
            depth - 1
        };
        let v = if full_window {
            -self.alpha_beta_pvs_internal(board, new_depth, -beta, -alpha, true).0
        } else {
            let scout = -self.alpha_beta_pvs_internal(
                board,
                new_depth,
                -(alpha + 1),
                -alpha,
                false,
            ).0;
            if scout > alpha && scout < beta {
                -self.alpha_beta_pvs_internal(board, new_depth, -beta, -alpha, true).0
            } else {
                scout
            }
        };
        self.pop_move(board, m);
        proof {
            lemma_apply_undo_round_trip(g0, turn0, *m);
            assert(board.chesses@ == g0);
            assert(s0.move_history@.push(*m).drop_last() =~= s0.move_history@);
            assert(s0.zobrist_history@.push(b0.zobrist_value).drop_last()
                =~= s0.zobrist_history@);
            assert(s0.check_history@.push(
                checked_spec(apply_grid_spec(g0, *m), m.player.next_spec()),
            ).drop_last() =~= s0.check_history@);
            assert(crate::rules::complete_move_spec(g0, turn0, *m) == *m);
            assert(crate::rules::legal_move_spec(g0, turn0, *m));
        }
        Some(v)
    }

    /// The principal-variation search. Probes the table, validating a
    /// cutoff's move before handing it back; detects
    /// repetitions away from the root; stands on quiescence at the horizon;
    /// prunes with a null move when allowed; searches the table's move
    /// first, then every generated move in heuristic order, scouting later
    /// moves with a zero-width window; extends by a ply on check; and
    /// stores the outcome depth-preferred. The board and the stacks come
    /// back exactly as they went in.
    #[verifier::rlimit(100)]
    fn alpha_beta_pvs_internal(
        &mut self,
        board: &mut Board,
        depth: i32,
        alpha: i32,
        beta: i32,
        allow_null: bool,
    ) -> (r: (i32, Option<Move>))
        requires
            old(self).wf(),
            old(board).wf(),
            MIN <= alpha < beta <= MAX,
            0 <= depth <= MAX_DEPTH,
        ensures
            final(self).wf(),
            final(board).wf(),
            board_same(*final(board), *old(board)),
            stacks_same(*final(self), *old(self)),
            -1001000 <= r.0 <= 1001000,
            r.1 matches Some(m) ==> crate::rules::legal_move_spec(
                old(board).chesses@,
                old(board).turn,
                m,
            ),
            mate_conditions_spec(
                old(self),
                old(board),
                depth,
                alpha as int,
                beta as int,
                allow_null,
            ) ==> r.0 == MIN + old(self).distance && r.1 is None,
        decreases search_measure(self.distance as int), depth, 2int,
    {
        let ghost b0 = *board;
        let ghost s0 = *self;
        let ghost g0 = board.chesses@;
        let ghost turn0 = board.turn;
        let entry_alpha: i32 = alpha;
        let mut alpha = alpha;
        if self.distance > MAX_DEPTH {
            return (board.evaluate(board.turn), None);
        }
        let (tt_value, hash_move) = self.find_record(board, alpha, beta, depth);
        match tt_value {
            Some(v) => {
                // A slot's move is trusted only once it proves fully legal
                // here; a stale or colliding move is dropped.
                let best = match hash_move {
                    Some(hm) => if board.is_move_legal(&hm) {
                        Some(hm)
                    } else {
                        None
                    },
                    None => None,
                };
                return (v, best);
            },
            None => {
            },
        }
        if self.distance > 0 {
            let rep = self.rep_status(board, 1);
            if rep > 0 {
                return (self.rep_value(rep), None);
            }
        }
        if depth == 0 {
            if self.counter < i32::MAX {
                self.counter = self.counter + 1;
            }
            let q = self.quies(board, alpha, beta);
            return (q, None);
        }
        if allow_null && depth >= 3 && !board.is_checked(board.turn) && self.null_move_okay(
            board,
        ) {
            self.push_null_move(board);
            let (v, _) = self.alpha_beta_pvs_internal(board, depth - 3, -beta, -beta + 1, false);
            self.pop_null_move(board);
            proof {
                lemma_xor_involution(
                    b0.zobrist_value,
                    crate::zobrist::table_spec(crate::zobrist::SEED_PRIMARY)[1260],
                );
                lemma_xor_involution(
                    b0.zobrist_value_lock,
                    crate::zobrist::table_spec(crate::zobrist::SEED_LOCK)[1260],
                );
            }
            if -v >= beta {
                return (beta, None);
            }
        }
        let mut hash_move_searched = false;
        let mut best_value: i32 = MIN;
        let mut best_move: Option<Move> = None;
        match hash_move {
            Some(hm) => {
                if board.is_valid_move(&hm) && hm.player == board.turn && hm.chess
                    == board.chess_at(hm.from) && hm.capture == board.chess_at(hm.to) {
                    proof {
                        lemma_sq_index_bijective(hm.from);
                        lemma_sq_index_bijective(hm.to);
                    }
                    self.push_move(board, &hm);
                    if !board.is_checked(board.turn.next()) {
                        hash_move_searched = true;
                        proof {
                            assert(crate::rules::complete_move_spec(g0, turn0, hm) == hm);
                            assert(crate::rules::legal_move_spec(g0, turn0, hm));
                            assert(exists_legal_spec(g0, turn0));
                        }
                        let v = -self.alpha_beta_pvs_internal(board, depth - 1, -beta, -alpha, true)
                            .0;
                        self.pop_move(board, &hm);
                        proof {
                            lemma_apply_undo_round_trip(g0, turn0, hm);
                            assert(board.chesses@ == g0);
                            assert(s0.move_history@.push(hm).drop_last() =~= s0.move_history@);
                            assert(s0.zobrist_history@.push(b0.zobrist_value).drop_last()
                                =~= s0.zobrist_history@);
                            assert(s0.check_history@.push(
                                checked_spec(apply_grid_spec(g0, hm), hm.player.next_spec()),
                            ).drop_last() =~= s0.check_history@);
                        }
                        if v >= beta {
                            self.update_killer_move(&hm, self.distance as usize);
                            self.update_history(&hm, depth);
                            self.add_record(board, depth, v, HashFlag::Beta, Some(hm));
                            return (v, Some(hm));
                        }
                        best_value = v;
                        best_move = Some(hm);
                        if v > alpha {
                            alpha = v;
                        }
                    } else {
                        self.pop_move(board, &hm);
                        proof {
                            lemma_apply_undo_round_trip(g0, turn0, hm);
                            assert(board.chesses@ == g0);
                            assert(s0.move_history@.push(hm).drop_last() =~= s0.move_history@);
                            assert(s0.zobrist_history@.push(b0.zobrist_value).drop_last()
                                =~= s0.zobrist_history@);
                            assert(s0.check_history@.push(
                                checked_spec(apply_grid_spec(g0, hm), hm.player.next_spec()),
                            ).drop_last() =~= s0.check_history@);
                        }
                    }
                }
            },
            None => {
            },
        }
        let mut count: usize = 0;
        let mut moves = board.generate_move(false);
        if self.gen_counter < i32::MAX {
            self.gen_counter = self.gen_counter + 1;
        }
        let ghost gen = moves@;
        self.sort_moves(&mut moves, None);
        let mut mi: usize = 0;
        while mi < moves.len()
            invariant
                self.wf(),
                board.wf(),
                board_same(*board, b0),
                stacks_same(*self, s0),
                b0 == *old(board),
                stacks_same(s0, *old(self)),
                b0.wf(),
                s0.wf(),
                g0 == b0.chesses@,
                turn0 == b0.turn,
                s0.distance <= MAX_DEPTH,
                MIN <= alpha < beta <= MAX,
                1 <= depth <= MAX_DEPTH,
                mi <= moves@.len(),
                0 <= count <= mi,
                -1001000 <= best_value <= 1001000,
                best_move matches Some(bm) ==> crate::rules::legal_move_spec(g0, turn0, bm),
                count > 0 ==> exists_legal_spec(g0, turn0),
                hash_move_searched ==> exists_legal_spec(g0, turn0),
                forall|q: int| 0 <= q < gen.len() ==> gen_move_ok(g0, turn0, #[trigger] gen[q]),
                forall|q: int| 0 <= q < moves@.len() ==> gen.contains(#[trigger] moves@[q]),
            decreases moves@.len() - mi,
        {
            let m = moves[mi];
            let mut skip = false;
            if hash_move_searched {
                match hash_move {
                    Some(hm) => {
                        if m == hm {
                            skip = true;
                        }
                    },
                    None => {
                    },
                }
            }
            if !skip {
                proof {
                    assert(gen.contains(m));
                    assert(gen_move_ok(g0, turn0, m));
                }
                let full_window = count == 0 && !hash_move_searched;
                match self.search_move(board, &m, depth, alpha, beta, full_window) {
                    None => {
                    },
                    Some(v) => {
                        proof {
                            assert(crate::rules::legal_move_spec(g0, turn0, m));
                            assert(exists_legal_spec(g0, turn0));
                        }
                        count = count + 1;
                        if v > best_value {
                            best_value = v;
                            if v >= beta {
                                self.update_killer_move(&m, self.distance as usize);
                                self.update_history(&m, depth);
                                self.add_record(board, depth, v, HashFlag::Beta, Some(m));
                                return (v, Some(m));
                            }
                            if v > alpha {
                                alpha = v;
                                best_move = Some(m);
                            }
                        }
                    },
                }
            }
            mi = mi + 1;
        }
        if count == 0 && !hash_move_searched {
            return (MIN + self.distance, None);
        }
        let hash_flag = if best_value > entry_alpha {
            HashFlag::Exact
        } else {
            HashFlag::Alpha
        };
        self.add_record(board, depth, best_value, hash_flag, best_move);
        (best_value, best_move)
    }

    /// Public entry of the principal-variation search.
    pub fn alpha_beta_pvs(&mut self, board: &mut Board, depth: i32, alpha: i32, beta: i32) -> (r: (
        i32,
        Option<Move>,
    ))
        requires
            old(self).wf(),
            old(board).wf(),
            MIN <= alpha < beta <= MAX,
            0 <= depth <= MAX_DEPTH,
        ensures
            final(self).wf(),
            final(board).wf(),
            board_same(*final(board), *old(board)),
            stacks_same(*final(self), *old(self)),
            -1001000 <= r.0 <= 1001000,
            r.1 matches Some(m) ==> crate::rules::legal_move_spec(
                old(board).chesses@,
                old(board).turn,
                m,
            ),
            mate_conditions_spec(old(self), old(board), depth, alpha as int, beta as int, true)
                ==> r.0 == MIN + old(self).distance && r.1 is None,
    {
        self.alpha_beta_pvs_internal(board, depth, alpha, beta, true)
    }

    /// Searches each depth in turn up to `max_depth`, keeping the killers,
    /// the history and the table between iterations, and returns the last
    /// depth's score and move. The board and the stacks come back exactly
    /// as they went in.
    pub fn iterative_deepening(&mut self, board: &mut Board, max_depth: i32) -> (r: (
        i32,
        Option<Move>,
    ))
        requires
            old(self).wf(),
            old(board).wf(),
            1 <= max_depth <= MAX_DEPTH,
        ensures
            final(self).wf(),
            final(board).wf(),
            board_same(*final(board), *old(board)),
            stacks_same(*final(self), *old(self)),
            r.1 matches Some(m) ==> crate::rules::legal_move_spec(
                old(board).chesses@,
                old(board).turn,
                m,
            ),
            -1001000 <= r.0 <= 1001000,
    {
        let ghost b0 = *board;
        let ghost s0 = *self;
        let ghost g0 = board.chesses@;
        let ghost turn0 = board.turn;
        let mut best_value: i32 = 0;
        let mut best_move: Option<Move> = None;
        let mut depth: i32 = 1;
        while depth <= max_depth
            invariant
                self.wf(),
                board.wf(),
                board_same(*board, b0),
                stacks_same(*self, s0),
                b0 == *old(board),
                b0.wf(),
                s0.wf(),
                g0 == b0.chesses@,
                turn0 == b0.turn,
                1 <= depth <= max_depth + 1,
                max_depth <= MAX_DEPTH,
                best_move matches Some(bm) ==> crate::rules::legal_move_spec(g0, turn0, bm),
                -1001000 <= best_value <= 1001000,
            decreases max_depth + 1 - depth,
        {
            let (v, bm) = self.alpha_beta_pvs(board, depth, MIN, MAX);
            match bm {
                Some(m) => {
                    best_value = v;
                    best_move = Some(m);
                },
                None => {
                },
            }
            depth = depth + 1;
        }
        (best_value, best_move)
    }
}

} // verus!
