//! Zobrist keys: two independent 64-bit key tables hash a position
//! incrementally. A table holds one key per (piece kind x colour, square)
//! pair and one key for "Black to move". The keys come from a fixed-seed
//! mixing stream, so equal positions hash equally in every process.

use vstd::prelude::*;

use crate::piece::{Chess, Player};
use crate::pos::{in_board_spec, sq_index, Position};

verus! {

pub const SM_GAMMA: u64 = 0x9E3779B97F4A7C15;

pub const SM_MUL1: u64 = 0xBF58476D1CE4E5B9;

pub const SM_MUL2: u64 = 0x94D049BB133111EB;

/// 14 piece rows of 90 squares, and one side-to-move key.
pub const ZOBRIST_KEYS: usize = 1261;

/// Seed of the primary key table.
pub const SEED_PRIMARY: u64 = 0x2545F4914F6CDD1D;

/// Seed of the verification (lock) key table.
pub const SEED_LOCK: u64 = 0x9E6C63D0876A9A35;

/// One step of the mixing function applied to a stream state.
pub open spec fn sm_mix_spec(z0: u64) -> u64 {
    let z1 = vstd::wrapping::u64_specs::wrapping_mul(z0 ^ (z0 >> 30), SM_MUL1);
    let z2 = vstd::wrapping::u64_specs::wrapping_mul(z1 ^ (z1 >> 27), SM_MUL2);
    z2 ^ (z2 >> 31)
}

/// The stream state after `n` increments of the seed.
pub open spec fn sm_state_spec(seed: u64, n: nat) -> u64
    decreases n,
{
    if n == 0 {
        seed
    } else {
        vstd::wrapping::u64_specs::wrapping_add(sm_state_spec(seed, (n - 1) as nat), SM_GAMMA)
    }
}

/// The `n`-th key drawn from the stream with the given seed.
pub open spec fn sm_key_spec(seed: u64, n: nat) -> u64 {
    sm_mix_spec(sm_state_spec(seed, n + 1))
}

/// The whole key table for a seed.
pub open spec fn table_spec(seed: u64) -> Seq<u64> {
    Seq::new(ZOBRIST_KEYS as nat, |i: int| sm_key_spec(seed, i as nat))
}

/// The key of the piece `c` on flat square `k`; an empty square keys 0.
pub open spec fn piece_key_spec(t: Seq<u64>, c: Chess, k: int) -> u64 {
    match c {
        Chess::Empty => 0,
        Chess::Red(ct) => t[ct.index_spec() * 90 + k],
        Chess::Black(ct) => t[(7 + ct.index_spec()) * 90 + k],
    }
}

/// XOR of the keys of the pieces on the first `n` flat squares.
pub open spec fn grid_hash_rec(t: Seq<u64>, g: Seq<Chess>, n: int) -> u64
    decreases n,
{
    if n <= 0 {
        0
    } else {
        grid_hash_rec(t, g, n - 1) ^ piece_key_spec(t, g[n - 1], n - 1)
    }
}

/// The full hash of a grid and a side to move under key table `t`.
pub open spec fn hash_spec(t: Seq<u64>, g: Seq<Chess>, turn: Player) -> u64 {
    grid_hash_rec(t, g, 90) ^ (if turn == Player::Black {
        t[1260]
    } else {
        0
    })
}

proof fn lemma_xor_zero(a: u64)
    ensures
        a ^ 0 == a,
        0 ^ a == a,
{
    assert(a ^ 0 == a && 0 ^ a == a) by (bit_vector);
}

proof fn lemma_xor_cancel_mid(a: u64, b: u64, c: u64)
    ensures
        ((a ^ b) ^ b) ^ c == a ^ c,
{
    assert(((a ^ b) ^ b) ^ c == a ^ c) by (bit_vector);
}

proof fn lemma_xor_shuffle(x: u64, a: u64, b: u64, k: u64)
    ensures
        (((x ^ a) ^ b) ^ k) == (((x ^ k) ^ a) ^ b),
{
    assert((((x ^ a) ^ b) ^ k) == (((x ^ k) ^ a) ^ b)) by (bit_vector);
}

pub proof fn lemma_grid_hash_congruence(t: Seq<u64>, g1: Seq<Chess>, g2: Seq<Chess>, n: int)
    requires
        forall|i: int| 0 <= i < n ==> g1[i] == g2[i],
    ensures
        grid_hash_rec(t, g1, n) == grid_hash_rec(t, g2, n),
    decreases n,
{
    if n > 0 {
        lemma_grid_hash_congruence(t, g1, g2, n - 1);
    }
}

/// Changing one square XORs that square's old and new keys into the fold.
pub proof fn lemma_grid_hash_update(t: Seq<u64>, g: Seq<Chess>, p: Chess, j: int, n: int)
    requires
        0 <= j < n <= g.len(),
    ensures
        grid_hash_rec(t, g.update(j, p), n) == (grid_hash_rec(t, g, n) ^ piece_key_spec(
            t,
            g[j],
            j,
        )) ^ piece_key_spec(t, p, j),
    decreases n,
{
    let g2 = g.update(j, p);
    let oldk = piece_key_spec(t, g[j], j);
    let newk = piece_key_spec(t, p, j);
    if j == n - 1 {
        assert(forall|i: int| 0 <= i < n - 1 ==> g[i] == g2[i]);
        lemma_grid_hash_congruence(t, g, g2, n - 1);
        assert(grid_hash_rec(t, g2, n) == grid_hash_rec(t, g, n - 1) ^ newk);
        assert((grid_hash_rec(t, g, n) ^ oldk) ^ newk == ((grid_hash_rec(t, g, n - 1) ^ oldk)
            ^ oldk) ^ newk);
        lemma_xor_cancel_mid(grid_hash_rec(t, g, n - 1), oldk, newk);
    } else {
        lemma_grid_hash_update(t, g, p, j, n - 1);
        let x = grid_hash_rec(t, g, n - 1);
        let k = piece_key_spec(t, g[n - 1], n - 1);
        assert(g2[n - 1] == g[n - 1]);
        assert(grid_hash_rec(t, g2, n) == ((x ^ oldk) ^ newk) ^ k);
        lemma_xor_shuffle(x, oldk, newk, k);
    }
}

/// A Zobrist key table.
#[derive(Debug)]
pub struct Zobristable {
    pub keys: Vec<u64>,
}

impl Zobristable {
    pub open spec fn wf(&self) -> bool {
        self.keys@.len() == 1261
    }

    /// Builds the table for a seed, key by key from the mixing stream.
    pub fn new(seed: u64) -> (r: Zobristable)
        ensures
            r.keys@ == table_spec(seed),
            r.wf(),
    {
        let mut keys: Vec<u64> = Vec::new();
        let mut state: u64 = seed;
        let mut i: usize = 0;
        while i < ZOBRIST_KEYS
            invariant
                0 <= i <= 1261,
                keys@.len() == i,
                state == sm_state_spec(seed, i as nat),
                forall|j: int| 0 <= j < i ==> keys@[j] == sm_key_spec(seed, j as nat),
            decreases 1261 - i,
        {
            state = state.wrapping_add(SM_GAMMA);
            let z1 = (state ^ (state >> 30)).wrapping_mul(SM_MUL1);
            let z2 = (z1 ^ (z1 >> 27)).wrapping_mul(SM_MUL2);
            let key = z2 ^ (z2 >> 31);
            assert(key == sm_key_spec(seed, i as nat));
            keys.push(key);
            i = i + 1;
        }
        let r = Zobristable { keys };
        proof {
            assert(r.keys@ =~= table_spec(seed));
        }
        r
    }

    /// The key of piece `c` on square `pos`; 0 for an empty square.
    pub fn piece_key(&self, c: Chess, pos: Position) -> (r: u64)
        requires
            self.wf(),
            in_board_spec(pos),
        ensures
            r == piece_key_spec(self.keys@, c, sq_index(pos)),
    {
        proof {
            crate::pos::lemma_sq_index_bijective(pos);
        }
        let sq: usize = (pos.row * 9 + pos.col) as usize;
        match c {
            Chess::Empty => 0,
            Chess::Red(ct) => {
                let row: usize = ct.value() as usize;
                self.keys[row * 90 + sq]
            }
            Chess::Black(ct) => {
                let row: usize = (7 + ct.value()) as usize;
                self.keys[row * 90 + sq]
            }
        }
    }

    /// The key folded in when Black is to move.
    pub fn side_key(&self) -> (r: u64)
        requires
            self.wf(),
        ensures
            r == self.keys@[1260],
    {
        self.keys[1260]
    }

    /// Hashes a whole grid and side to move from scratch.
    pub fn calc_chesses(&self, grid: &Vec<Chess>, turn: Player) -> (r: u64)
        requires
            self.wf(),
            grid@.len() == 90,
        ensures
            r == hash_spec(self.keys@, grid@, turn),
    {
        let mut h: u64 = 0;
        let mut row: i32 = 0;
        while row < 10
            invariant
                self.wf(),
                grid@.len() == 90,
                0 <= row <= 10,
                h == grid_hash_rec(self.keys@, grid@, row * 9),
            decreases 10 - row,
        {
            let mut col: i32 = 0;
            while col < 9
                invariant
                    self.wf(),
                    grid@.len() == 90,
                    0 <= row < 10,
                    0 <= col <= 9,
                    h == grid_hash_rec(self.keys@, grid@, row * 9 + col),
                decreases 9 - col,
            {
                let p = Position { row, col };
                let k: usize = (row * 9 + col) as usize;
                let c = grid[k];
                let key = self.piece_key(c, p);
                proof {
                    if c == Chess::Empty {
                        lemma_xor_zero(h);
                    }
                }
                h = h ^ key;
                col = col + 1;
            }
            row = row + 1;
        }
        assert(h == grid_hash_rec(self.keys@, grid@, 90));
        if turn == Player::Black {
            h ^ self.side_key()
        } else {
            proof {
                lemma_xor_zero(h);
            }
            h
        }
    }

    /// The hash after a move: the moved piece's keys at source and target,
    /// the captured piece's key at the target, and the side key fold in.
    pub fn apply_move(&self, h: u64, m: &crate::moves::Move) -> (r: u64)
        requires
            self.wf(),
            in_board_spec(m.from),
            in_board_spec(m.to),
        ensures
            r == (((h ^ piece_key_spec(self.keys@, m.chess, sq_index(m.from))) ^ piece_key_spec(
                self.keys@,
                m.chess,
                sq_index(m.to),
            )) ^ piece_key_spec(self.keys@, m.capture, sq_index(m.to))) ^ self.keys@[1260],
    {
        let h1 = h ^ self.piece_key(m.chess, m.from);
        let h2 = h1 ^ self.piece_key(m.chess, m.to);
        let h3 = h2 ^ self.piece_key(m.capture, m.to);
        h3 ^ self.side_key()
    }

    /// Undoing a move XORs the same keys again; XOR is an involution.
    pub fn undo_move(&self, h: u64, m: &crate::moves::Move) -> (r: u64)
        requires
            self.wf(),
            in_board_spec(m.from),
            in_board_spec(m.to),
        ensures
            r == (((h ^ piece_key_spec(self.keys@, m.chess, sq_index(m.from))) ^ piece_key_spec(
                self.keys@,
                m.chess,
                sq_index(m.to),
            )) ^ piece_key_spec(self.keys@, m.capture, sq_index(m.to))) ^ self.keys@[1260],
    {
        self.apply_move(h, m)
    }
}

} // verus!
