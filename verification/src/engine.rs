//! The engine core behind the UCCI text protocol: the opening book and its
//! query, move-string decoding, the `position` command, and the search
//! entry. Reading lines and printing answers is the host's part.

use vstd::prelude::*;
use vstd::string::StringSliceAdditionalSpecFns;

use crate::board::{apply_grid_spec, grid_at, Board};
use crate::constant::MAX_DEPTH;
use crate::moves::Move;
use crate::piece::Chess;
use crate::pos::Position;
use crate::rules::{complete_move_spec, legal_move_spec};
use crate::search::{board_same, SearchState};

verus! {

/// One opening-book entry: the hash pair of a position, the book's answer
/// as a source and target square, and its weight.
#[derive(Clone, Copy, Debug)]
pub struct PreLoad {
    pub zobrist_value: u64,
    pub zobrist_value_check: u64,
    pub best_move_from: Position,
    pub best_move_to: Position,
    pub weight: i32,
}

/// Relies on fastrand::fill: fills the buffer with bytes from the
/// thread-local generator; nothing is promised of the value.
#[verifier::external_body]
fn random_u32() -> u32 {
    let mut buf = [0u8; 4];
    fastrand::fill(&mut buf);
    u32::from_be_bytes(buf)
}

/// The completed move a book entry names on a board.
pub open spec fn book_move_spec(b: &Board, e: PreLoad) -> Move {
    Move {
        player: b.turn,
        from: e.best_move_from,
        to: e.best_move_to,
        chess: grid_at(b.chesses@, e.best_move_from),
        capture: grid_at(b.chesses@, e.best_move_to),
    }
}

/// The conditions under which the book owes an answer: some entry matches
/// the primary hash, and every such entry also matches the lock hash and
/// names a fully legal move.
pub open spec fn book_answer_owed_spec(b: &Board, book: Seq<PreLoad>) -> bool {
    &&& exists|j: int| 0 <= j < book.len() && #[trigger] book[j].zobrist_value == b.zobrist_value
    &&& forall|j: int|
        0 <= j < book.len() && #[trigger] book[j].zobrist_value == b.zobrist_value
            ==> book[j].zobrist_value_check == b.zobrist_value_lock && legal_move_spec(
            b.chesses@,
            b.turn,
            book_move_spec(b, book[j]),
        )
}

/// The book is ordered by primary hash, so a probe can binary-search it.
pub open spec fn book_sorted(book: Seq<PreLoad>) -> bool {
    forall|a: int, b: int|
        0 <= a <= b < book.len() ==> #[trigger] book[a].zobrist_value <= #[trigger] book[b].zobrist_value
}

/// The square a two-character coordinate names: the letter is the column
/// from the left, the digit the row from Red's base upward.
pub open spec fn decode_pos_spec(bc: u8, br: u8) -> Position {
    Position { row: (9 - (br - 48)) as i32, col: (bc - 97) as i32 }
}

/// The move pairs encoded from `i` on: four coordinate characters each,
/// separated by single spaces; the list ends at the first break in that
/// shape.
pub open spec fn move_list_spec(bs: Seq<u8>, i: int) -> Seq<(Position, Position)>
    decreases bs.len() - i,
{
    if i < 0 || i + 4 > bs.len() {
        Seq::empty()
    } else {
        let pr = (decode_pos_spec(bs[i], bs[i + 1]), decode_pos_spec(bs[i + 2], bs[i + 3]));
        if i + 4 == bs.len() {
            seq![pr]
        } else if bs[i + 4] == 32 {
            seq![pr].add(move_list_spec(bs, i + 5))
        } else {
            seq![pr]
        }
    }
}

/// Where the ` moves ` keyword begins, or the length when it is absent.
pub open spec fn moves_kw_spec(bs: Seq<u8>, i: int) -> int
    decreases bs.len() - i,
{
    if i < 0 || i + 7 > bs.len() {
        bs.len() as int
    } else if bs[i] == 32 && bs[i + 1] == 109 && bs[i + 2] == 111 && bs[i + 3] == 118 && bs[i + 4]
        == 101 && bs[i + 5] == 115 && bs[i + 6] == 32 {
        i
    } else {
        moves_kw_spec(bs, i + 1)
    }
}

/// The position after playing the given square pairs in turn, each
/// completed against the board it meets; the sequence stops at the first
/// move that is not fully legal.
pub open spec fn apply_list_spec(g: Seq<Chess>, turn: crate::piece::Player, ms: Seq<(Position, Position)>) -> (
    Seq<Chess>,
    crate::piece::Player,
)
    decreases ms.len(),
{
    if ms.len() == 0 {
        (g, turn)
    } else {
        let raw = Move {
            player: turn,
            from: ms[0].0,
            to: ms[0].1,
            chess: Chess::Empty,
            capture: Chess::Empty,
        };
        if legal_move_spec(g, turn, raw) {
            let cm = complete_move_spec(g, turn, raw);
            apply_list_spec(apply_grid_spec(g, cm), turn.next_spec(), ms.drop_first())
        } else {
            (g, turn)
        }
    }
}

fn decode_coord(bc: u8, br: u8) -> (r: Position)
    ensures
        r == decode_pos_spec(bc, br),
{
    Position { row: 9 - (br as i32 - 48), col: bc as i32 - 97 }
}

/// Encodes an on-board square as its two coordinate characters: the
/// column letter and the row digit. The exact inverse of the decoder.
pub fn encode_coord(p: Position) -> (r: (u8, u8))
    requires
        crate::pos::in_board_spec(p),
    ensures
        decode_pos_spec(r.0, r.1) == p,
{
    (97 + p.col as u8, 48 + (9 - p.row) as u8)
}

fn parse_move_list(bytes: &[u8], start: usize) -> (r: Vec<(Position, Position)>)
    requires
        bytes@.len() <= 100000,
        start <= bytes@.len(),
    ensures
        r@ == move_list_spec(bytes@, start as int),
{
    let mut out: Vec<(Position, Position)> = Vec::new();
    let mut i: usize = start;
    let n = bytes.len();
    loop
        invariant
            bytes@.len() == n <= 100000,
            0 <= i <= n + 1,
            move_list_spec(bytes@, start as int) == out@ + move_list_spec(bytes@, i as int),
        ensures
            out@ == move_list_spec(bytes@, start as int),
        decreases n + 5 - i,
    {
        if i + 4 > n || i > n {
            proof {
                assert(move_list_spec(bytes@, i as int) =~= Seq::<(Position, Position)>::empty());
                assert(out@ + move_list_spec(bytes@, i as int) =~= out@);
            }
            break;
        }
        let b0 = *vstd::slice::slice_index_get(bytes, i);
        let b1 = *vstd::slice::slice_index_get(bytes, i + 1);
        let b2 = *vstd::slice::slice_index_get(bytes, i + 2);
        let b3 = *vstd::slice::slice_index_get(bytes, i + 3);
        let pr = (decode_coord(b0, b1), decode_coord(b2, b3));
        let ghost out_pre = out@;
        out.push(pr);
        if i + 4 == n {
            proof {
                assert(move_list_spec(bytes@, i as int) =~= seq![pr]);
                assert(move_list_spec(bytes@, (n + 1) as int) =~= Seq::<(
                    Position,
                    Position,
                )>::empty());
                assert(out@ + move_list_spec(bytes@, (n + 1) as int) =~= out_pre
                    + move_list_spec(bytes@, i as int));
            }
            i = n + 1;
        } else {
            let sep = *vstd::slice::slice_index_get(bytes, i + 4);
            if sep == 32 {
                proof {
                    assert(move_list_spec(bytes@, i as int) =~= seq![pr].add(
                        move_list_spec(bytes@, i + 5),
                    ));
                    assert(out@ + move_list_spec(bytes@, i + 5) =~= out_pre + move_list_spec(
                        bytes@,
                        i as int,
                    ));
                }
                i = i + 5;
            } else {
                proof {
                    assert(move_list_spec(bytes@, i as int) =~= seq![pr]);
                    assert(move_list_spec(bytes@, (n + 1) as int) =~= Seq::<(
                        Position,
                        Position,
                    )>::empty());
                    assert(out@ + move_list_spec(bytes@, (n + 1) as int) =~= out_pre
                        + move_list_spec(bytes@, i as int));
                }
                i = n + 1;
            }
        }
    }
    out
}

fn find_moves_kw(bytes: &[u8]) -> (r: usize)
    requires
        bytes@.len() <= 100000,
    ensures
        r as int == moves_kw_spec(bytes@, 0),
        r <= bytes@.len(),
{
    let n = bytes.len();
    let mut i: usize = 0;
    while i + 7 <= n
        invariant
            bytes@.len() == n <= 100000,
            0 <= i <= n,
            moves_kw_spec(bytes@, 0) == moves_kw_spec(bytes@, i as int),
        decreases n + 7 - i,
    {
        if *vstd::slice::slice_index_get(bytes, i) == 32 && *vstd::slice::slice_index_get(
            bytes,
            i + 1,
        ) == 109 && *vstd::slice::slice_index_get(bytes, i + 2) == 111
            && *vstd::slice::slice_index_get(bytes, i + 3) == 118 && *vstd::slice::slice_index_get(
            bytes,
            i + 4,
        ) == 101 && *vstd::slice::slice_index_get(bytes, i + 5) == 115
            && *vstd::slice::slice_index_get(bytes, i + 6) == 32 {
            return i;
        }
        i = i + 1;
    }
    n
}

/// Plays the listed square pairs on the board, completing each against the
/// grid it meets, and stops at the first one that is not fully legal.
fn apply_moves(board: &mut Board, list: &Vec<(Position, Position)>)
    requires
        old(board).wf(),
    ensures
        final(board).wf(),
        (final(board).chesses@, final(board).turn) == apply_list_spec(
            old(board).chesses@,
            old(board).turn,
            list@,
        ),
{
    let mut i: usize = 0;
    let n = list.len();
    proof {
        assert(list@.subrange(0, n as int) =~= list@);
    }
    while i < n
        invariant
            board.wf(),
            n == list@.len(),
            0 <= i <= n,
            apply_list_spec(old(board).chesses@, old(board).turn, list@) == apply_list_spec(
                board.chesses@,
                board.turn,
                list@.subrange(i as int, n as int),
            ),
        decreases n - i,
    {
        let (f, t) = list[i];
        let raw = Move { player: board.turn, from: f, to: t, chess: Chess::Empty, capture: Chess::Empty };
        let ghost rest = list@.subrange(i as int, n as int);
        proof {
            assert(rest[0] == (f, t));
            assert(rest.drop_first() =~= list@.subrange(i + 1, n as int));
        }
        if board.is_move_legal(&raw) {
            let cm = Move {
                player: board.turn,
                from: f,
                to: t,
                chess: board.chess_at(f),
                capture: board.chess_at(t),
            };
            board.apply_move(&cm);
        } else {
            proof {
                assert(apply_list_spec(board.chesses@, board.turn, rest) == (
                    board.chesses@,
                    board.turn,
                ));
            }
            return;
        }
        i = i + 1;
    }
    proof {
        assert(list@.subrange(n as int, n as int) =~= Seq::<(Position, Position)>::empty());
    }
}

/// The engine: a position, the search state, and the opening book.
#[derive(Debug)]
pub struct UCCIEngine {
    pub board: Board,
    pub search: SearchState,
    pub book: Vec<PreLoad>,
}

impl UCCIEngine {
    pub open spec fn wf(&self) -> bool {
        &&& self.board.wf()
        &&& self.search.wf()
        &&& book_sorted(self.book@)
    }

    /// A fresh engine on the opening position, with the book given as
    /// ready-made entries, sorted here for the probe's binary search.
    pub fn new(book_entries: Vec<PreLoad>) -> (r: UCCIEngine)
        ensures
            r.wf(),
            r.board.chesses@ == crate::board::init_grid_spec(),
            r.board.turn == crate::piece::Player::Red,
            r.book@.to_multiset() == book_entries@.to_multiset(),
    {
        let mut book = book_entries;
        sort_book(&mut book);
        UCCIEngine { board: Board::init(), search: SearchState::new(), book }
    }

    /// Probes the book for the current position: a binary search on the
    /// primary hash, trusted only if the lock hash also matches, then a
    /// draw over the candidates; the probe keeps only the single
    /// binary-search hit as a candidate, so the draw is over one entry.
    pub fn search_in_book(&self) -> (r: Option<(Position, Position)>)
        requires
            self.wf(),
        ensures
            r matches Some(pr) ==> exists|j: int|
                0 <= j < self.book@.len() && #[trigger] self.book@[j].zobrist_value
                    == self.board.zobrist_value && self.book@[j].zobrist_value_check
                    == self.board.zobrist_value_lock && pr == (
                self.book@[j].best_move_from,
                self.book@[j].best_move_to,
            ),
            (forall|j: int|
                0 <= j < self.book@.len() ==> #[trigger] self.book@[j].zobrist_value
                    != self.board.zobrist_value) ==> r is None,
            ((exists|j: int|
                0 <= j < self.book@.len() && #[trigger] self.book@[j].zobrist_value
                    == self.board.zobrist_value) && (forall|j: int|
                0 <= j < self.book@.len() && #[trigger] self.book@[j].zobrist_value
                    == self.board.zobrist_value ==> self.book@[j].zobrist_value_check
                    == self.board.zobrist_value_lock)) ==> r is Some,
    {
        if self.book.len() == 0 {
            return None;
        }
        match book_binary_search(&self.book, self.board.zobrist_value) {
            Some(i) => {
                let entry = self.book[i];
                if entry.zobrist_value_check == self.board.zobrist_value_lock {
                    let candidate_count: usize = 1;
                    let pick = (random_u32() as usize) % candidate_count;
                    if pick == 0 {
                        Some((entry.best_move_from, entry.best_move_to))
                    } else {
                        None
                    }
                } else {
                    None
                }
            },
            None => None,
        }
    }

    /// The book's move for the current position, completed against the
    /// grid, if the book has one and it is fully legal.
    pub fn get_book_move(&self) -> (r: Option<Move>)
        requires
            self.wf(),
        ensures
            r matches Some(m) ==> legal_move_spec(self.board.chesses@, self.board.turn, m)
                && m.player == self.board.turn && m.chess == grid_at(self.board.chesses@, m.from)
                && m.capture == grid_at(self.board.chesses@, m.to),
            book_answer_owed_spec(&self.board, self.book@) ==> r is Some,
    {
        match self.search_in_book() {
            Some((f, t)) => {
                let m = Move {
                    player: self.board.turn,
                    from: f,
                    to: t,
                    chess: self.board.chess_at(f),
                    capture: self.board.chess_at(t),
                };
                if self.board.is_move_legal(&m) {
                    Some(m)
                } else {
                    None
                }
            },
            None => None,
        }
    }

    /// Whether the book answers the current position at all.
    pub fn has_book_move(&self) -> (r: bool)
        requires
            self.wf(),
        ensures
            (forall|j: int|
                0 <= j < self.book@.len() ==> #[trigger] self.book@[j].zobrist_value
                    != self.board.zobrist_value) ==> !r,
            ((exists|j: int|
                0 <= j < self.book@.len() && #[trigger] self.book@[j].zobrist_value
                    == self.board.zobrist_value) && (forall|j: int|
                0 <= j < self.book@.len() && #[trigger] self.book@[j].zobrist_value
                    == self.board.zobrist_value ==> self.book@[j].zobrist_value_check
                    == self.board.zobrist_value_lock)) ==> r,
    {
        match self.search_in_book() {
            Some(_) => true,
            None => false,
        }
    }

    /// Decodes a four-character move string against the current position;
    /// the result is the completed move when it is fully legal.
    pub fn parse_move_string(&self, move_str: &str) -> (r: Option<Move>)
        requires
            self.wf(),
        ensures
            r matches Some(m) ==> {
                let bs = move_str.spec_bytes();
                &&& bs.len() == 4
                &&& m.from == decode_pos_spec(bs[0], bs[1])
                &&& m.to == decode_pos_spec(bs[2], bs[3])
                &&& legal_move_spec(self.board.chesses@, self.board.turn, m)
                &&& m.player == self.board.turn
                &&& m.chess == grid_at(self.board.chesses@, m.from)
                &&& m.capture == grid_at(self.board.chesses@, m.to)
            },
            ({
                let bs = move_str.spec_bytes();
                bs.len() == 4 && legal_move_spec(
                    self.board.chesses@,
                    self.board.turn,
                    Move {
                        player: self.board.turn,
                        from: decode_pos_spec(bs[0], bs[1]),
                        to: decode_pos_spec(bs[2], bs[3]),
                        chess: Chess::Empty,
                        capture: Chess::Empty,
                    },
                )
            }) ==> r is Some,
    {
        let bytes = move_str.as_bytes();
        if bytes.len() != 4 {
            return None;
        }
        let from = decode_coord(
            *vstd::slice::slice_index_get(bytes, 0),
            *vstd::slice::slice_index_get(bytes, 1),
        );
        let to = decode_coord(
            *vstd::slice::slice_index_get(bytes, 2),
            *vstd::slice::slice_index_get(bytes, 3),
        );
        let m = Move {
            player: self.board.turn,
            from,
            to,
            chess: self.board.chess_at(from),
            capture: self.board.chess_at(to),
        };
        if self.board.is_move_legal(&m) {
            Some(m)
        } else {
            None
        }
    }

    /// The `position` command: `startpos` or `fen <fen>`, optionally
    /// followed by ` moves ` and a list of four-character moves, which are
    /// played as far as they stay legal. Anything else leaves the position
    /// alone.
    #[verifier::rlimit(100)]
    pub fn position(&mut self, param: &str)
        requires
            old(self).wf(),
            param.spec_bytes().len() <= 100000,
        ensures
            final(self).wf(),
            final(self).book@ == old(self).book@,
            ({
                let bs = param.spec_bytes();
                let kw = moves_kw_spec(bs, 0);
                let ms = (if kw + 7 <= bs.len() {
                    move_list_spec(bs, kw + 7)
                } else {
                    Seq::empty()
                });
                if startpos_param_spec(bs) {
                    (final(self).board.chesses@, final(self).board.turn) == apply_list_spec(
                        crate::board::init_grid_spec(),
                        crate::piece::Player::Red,
                        ms,
                    )
                } else if bs.len() >= 4 && bs.subrange(0, 4) =~= fen_prefix_bytes() {
                    (final(self).board.chesses@, final(self).board.turn) == apply_list_spec(
                        crate::board::fen_grid_spec(bs.skip(4)),
                        crate::board::fen_turn_spec(bs.skip(4)),
                        ms,
                    )
                } else {
                    final(self).board.chesses@ == old(self).board.chesses@
                        && final(self).board.turn == old(self).board.turn
                }
            }),
    {
        let bytes = param.as_bytes();
        let n = bytes.len();
        let kw = find_moves_kw(bytes);
        let list: Vec<(Position, Position)> = if kw + 7 <= n {
            parse_move_list(bytes, kw + 7)
        } else {
            Vec::new()
        };
        let is_startpos = n >= 8 && *vstd::slice::slice_index_get(bytes, 0) == 115
            && *vstd::slice::slice_index_get(bytes, 1) == 116 && *vstd::slice::slice_index_get(
            bytes,
            2,
        ) == 97 && *vstd::slice::slice_index_get(bytes, 3) == 114 && *vstd::slice::slice_index_get(
            bytes,
            4,
        ) == 116 && *vstd::slice::slice_index_get(bytes, 5) == 112 && *vstd::slice::slice_index_get(
            bytes,
            6,
        ) == 111 && *vstd::slice::slice_index_get(bytes, 7) == 115 && (n == 8
            || *vstd::slice::slice_index_get(bytes, 8) == 32);
        let is_fen = !is_startpos && n >= 4 && *vstd::slice::slice_index_get(bytes, 0) == 102
            && *vstd::slice::slice_index_get(bytes, 1) == 101 && *vstd::slice::slice_index_get(
            bytes,
            2,
        ) == 110 && *vstd::slice::slice_index_get(bytes, 3) == 32;
        proof {
            if is_startpos {
                assert(bytes@.subrange(0, 8) =~= startpos_bytes());
                assert(startpos_param_spec(bytes@));
            } else {
                if bytes@.len() >= 8 && bytes@.subrange(0, 8) == startpos_bytes() {
                    assert(bytes@[0] == 115 && bytes@[1] == 116 && bytes@[2] == 97 && bytes@[3]
                        == 114 && bytes@[4] == 116 && bytes@[5] == 112 && bytes@[6] == 111
                        && bytes@[7] == 115) by {
                        assert(forall|k: int|
                            0 <= k < 8 ==> bytes@.subrange(0, 8)[k] == #[trigger] bytes@[k]);
                    }
                }
                assert(!startpos_param_spec(bytes@));
            }
            if is_fen {
                assert(bytes@.subrange(0, 4) =~= fen_prefix_bytes());
            } else if !is_startpos {
                assert(!(bytes@.len() >= 4 && bytes@.subrange(0, 4) =~= fen_prefix_bytes()));
            }
        }
        if is_startpos {
            self.board = Board::init();
            apply_moves(&mut self.board, &list);
        } else if is_fen {
            let fen_part = vstd::slice::slice_subrange(bytes, 4, n);
            proof {
                assert(fen_part@ =~= bytes@.skip(4));
            }
            self.board = Board::from_fen_bytes(fen_part);
            apply_moves(&mut self.board, &list);
        }
    }

    /// The `go` command's computation: the book's answer if it has one,
    /// otherwise an iterative-deepening search to the asked depth, clamped
    /// into the supported range. The score accompanies a searched move; a
    /// book move carries score 0.
    pub fn go(&mut self, depth: i32) -> (r: (i32, Option<Move>))
        requires
            old(self).wf(),
        ensures
            final(self).wf(),
            board_same(final(self).board, old(self).board),
            crate::search::stacks_same(final(self).search, old(self).search),
            final(self).book@ == old(self).book@,
            r.1 matches Some(m) ==> legal_move_spec(
                old(self).board.chesses@,
                old(self).board.turn,
                m,
            ),
            book_answer_owed_spec(&old(self).board, old(self).book@) ==> r.1 is Some,
    {
        match self.get_book_move() {
            Some(m) => (0, Some(m)),
            None => {
                let d = if depth < 1 {
                    1
                } else if depth > MAX_DEPTH {
                    MAX_DEPTH
                } else {
                    depth
                };
                self.search.iterative_deepening(&mut self.board, d)
            },
        }
    }
}

/// The bytes of the `startpos` keyword.
pub open spec fn startpos_bytes() -> Seq<u8> {
    seq![115u8, 116u8, 97u8, 114u8, 116u8, 112u8, 111u8, 115u8]
}

/// Whether a parameter names the opening position: the `startpos` keyword
/// on its own, or followed by a space. A parameter that merely begins with
/// those letters is no command and is ignored.
pub open spec fn startpos_param_spec(bs: Seq<u8>) -> bool {
    bs.len() >= 8 && bs.subrange(0, 8) == startpos_bytes() && (bs.len() == 8 || bs[8] == 32)
}

/// The bytes of the `fen ` prefix.
pub open spec fn fen_prefix_bytes() -> Seq<u8> {
    seq![102u8, 101u8, 110u8, 32u8]
}

/// Orders the book by primary hash.
fn sort_book(book: &mut Vec<PreLoad>)
    ensures
        book_sorted(final(book)@),
        final(book)@.to_multiset() == old(book)@.to_multiset(),
        final(book)@.len() == old(book)@.len(),
{
    broadcast use vstd::seq_lib::group_to_multiset_ensures;
    broadcast use vstd::multiset::group_multiset_axioms;

    let ghost orig = book@;
    let mut out: Vec<PreLoad> = Vec::new();
    while book.len() > 0
        invariant
            out@.to_multiset().add(book@.to_multiset()) =~= orig.to_multiset(),
            out@.len() + book@.len() == orig.len(),
            book_sorted(out@),
            forall|a: int, j: int|
                0 <= a < out@.len() && 0 <= j < book@.len() ==> #[trigger] out@[a].zobrist_value
                    <= #[trigger] book@[j].zobrist_value,
        decreases book@.len(),
    {
        let mut jmin: usize = 0;
        let mut best: u64 = book[0].zobrist_value;
        let mut j: usize = 1;
        while j < book.len()
            invariant
                book@.len() > 0,
                0 <= jmin < book@.len(),
                1 <= j <= book@.len(),
                best == book@[jmin as int].zobrist_value,
                forall|q: int| 0 <= q < j ==> best <= #[trigger] book@[q].zobrist_value,
            decreases book@.len() - j,
        {
            if book[j].zobrist_value < best {
                best = book[j].zobrist_value;
                jmin = j;
            }
            j = j + 1;
        }
        let ghost pre = book@;
        let ghost out_pre = out@;
        let e = book.remove(jmin);
        out.push(e);
        proof {
            assert(e == pre[jmin as int]);
            assert(pre =~= book@.insert(jmin as int, e));
            vstd::seq_lib::to_multiset_insert(book@, jmin as int, e);
            vstd::seq_lib::to_multiset_build(out_pre, e);
            assert(out@.to_multiset().add(book@.to_multiset()) =~= out_pre.to_multiset().add(
                pre.to_multiset(),
            ));
        }
    }
    proof {
        assert(book@.to_multiset() =~= vstd::multiset::Multiset::<PreLoad>::empty());
        assert(out@.to_multiset() =~= orig.to_multiset());
    }
    *book = out;
}

/// Binary search on the book's primary hashes: some index holding `target`
/// when one exists, or nothing when none does.
fn book_binary_search(book: &Vec<PreLoad>, target: u64) -> (r: Option<usize>)
    requires
        book_sorted(book@),
    ensures
        r matches Some(i) ==> 0 <= i < book@.len() && book@[i as int].zobrist_value == target,
        r is None ==> forall|j: int|
            0 <= j < book@.len() ==> #[trigger] book@[j].zobrist_value != target,
{
    let mut lo: usize = 0;
    let mut hi: usize = book.len();
    while lo < hi
        invariant
            book_sorted(book@),
            0 <= lo <= hi <= book@.len(),
            forall|j: int| 0 <= j < lo ==> #[trigger] book@[j].zobrist_value < target,
            forall|j: int| hi <= j < book@.len() ==> #[trigger] book@[j].zobrist_value > target,
        decreases hi - lo,
    {
        let mid = lo + (hi - lo) / 2;
        let v = book[mid].zobrist_value;
        if v == target {
            return Some(mid);
        } else if v < target {
            proof {
                assert(forall|j: int|
                    0 <= j <= mid ==> #[trigger] book@[j].zobrist_value <= v);
            }
            lo = mid + 1;
        } else {
            proof {
                assert(forall|j: int|
                    mid <= j < book@.len() ==> #[trigger] book@[j].zobrist_value >= v);
            }
            hi = mid;
        }
    }
    None
}

} // verus!
