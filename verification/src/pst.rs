//! Piece-square tables: the positional value of each piece kind on each
//! square, given from Red's perspective; row 0 is Black's back rank. Black's
//! value on a square is read after rotating the board half a turn.

use vstd::prelude::*;

use crate::piece::{Chess, ChessType, Player};

verus! {

pub open spec fn pst_king_spec(r: int, c: int) -> int {
    let cc = if 4 < c <= 8 { 8 - c } else { c };
    if r == 0 {
        if cc == 0 { 0 } else if cc == 1 { 0 } else if cc == 2 { 0 } else if cc == 3 { 0 } else { 0 }
    } else
    if r == 1 {
        if cc == 0 { 0 } else if cc == 1 { 0 } else if cc == 2 { 0 } else if cc == 3 { 0 } else { 0 }
    } else
    if r == 2 {
        if cc == 0 { 0 } else if cc == 1 { 0 } else if cc == 2 { 0 } else if cc == 3 { 0 } else { 0 }
    } else
    if r == 3 {
        if cc == 0 { 0 } else if cc == 1 { 0 } else if cc == 2 { 0 } else if cc == 3 { 0 } else { 0 }
    } else
    if r == 4 {
        if cc == 0 { 0 } else if cc == 1 { 0 } else if cc == 2 { 0 } else if cc == 3 { 0 } else { 0 }
    } else
    if r == 5 {
        if cc == 0 { 0 } else if cc == 1 { 0 } else if cc == 2 { 0 } else if cc == 3 { 0 } else { 0 }
    } else
    if r == 6 {
        if cc == 0 { 0 } else if cc == 1 { 0 } else if cc == 2 { 0 } else if cc == 3 { 0 } else { 0 }
    } else
    if r == 7 {
        if cc == 0 { 0 } else if cc == 1 { 0 } else if cc == 2 { 0 } else if cc == 3 { 1 } else { 1 }
    } else
    if r == 8 {
        if cc == 0 { 0 } else if cc == 1 { 0 } else if cc == 2 { 0 } else if cc == 3 { 2 } else { 2 }
    } else
 {
        if cc == 0 { 0 } else if cc == 1 { 0 } else if cc == 2 { 0 } else if cc == 3 { 11 } else { 15 }
    }
}

pub open spec fn pst_advisor_spec(r: int, c: int) -> int {
    let cc = if 4 < c <= 8 { 8 - c } else { c };
    if r == 0 {
        if cc == 0 { 0 } else if cc == 1 { 0 } else if cc == 2 { 0 } else if cc == 3 { 0 } else { 0 }
    } else
    if r == 1 {
        if cc == 0 { 0 } else if cc == 1 { 0 } else if cc == 2 { 0 } else if cc == 3 { 0 } else { 0 }
    } else
    if r == 2 {
        if cc == 0 { 0 } else if cc == 1 { 0 } else if cc == 2 { 0 } else if cc == 3 { 0 } else { 0 }
    } else
    if r == 3 {
        if cc == 0 { 0 } else if cc == 1 { 0 } else if cc == 2 { 0 } else if cc == 3 { 0 } else { 0 }
    } else
    if r == 4 {
        if cc == 0 { 0 } else if cc == 1 { 0 } else if cc == 2 { 0 } else if cc == 3 { 0 } else { 0 }
    } else
    if r == 5 {
        if cc == 0 { 0 } else if cc == 1 { 0 } else if cc == 2 { 0 } else if cc == 3 { 0 } else { 0 }
    } else
    if r == 6 {
        if cc == 0 { 0 } else if cc == 1 { 0 } else if cc == 2 { 0 } else if cc == 3 { 0 } else { 0 }
    } else
    if r == 7 {
        if cc == 0 { 0 } else if cc == 1 { 0 } else if cc == 2 { 0 } else if cc == 3 { 20 } else { 0 }
    } else
    if r == 8 {
        if cc == 0 { 0 } else if cc == 1 { 0 } else if cc == 2 { 0 } else if cc == 3 { 0 } else { 23 }
    } else
 {
        if cc == 0 { 0 } else if cc == 1 { 0 } else if cc == 2 { 0 } else if cc == 3 { 20 } else { 0 }
    }
}

pub open spec fn pst_bishop_spec(r: int, c: int) -> int {
    let cc = if 4 < c <= 8 { 8 - c } else { c };
    if r == 0 {
        if cc == 0 { 0 } else if cc == 1 { 0 } else if cc == 2 { 0 } else if cc == 3 { 0 } else { 0 }
    } else
    if r == 1 {
        if cc == 0 { 0 } else if cc == 1 { 0 } else if cc == 2 { 0 } else if cc == 3 { 0 } else { 0 }
    } else
    if r == 2 {
        if cc == 0 { 0 } else if cc == 1 { 0 } else if cc == 2 { 0 } else if cc == 3 { 0 } else { 0 }
    } else
    if r == 3 {
        if cc == 0 { 0 } else if cc == 1 { 0 } else if cc == 2 { 0 } else if cc == 3 { 0 } else { 0 }
    } else
    if r == 4 {
        if cc == 0 { 0 } else if cc == 1 { 0 } else if cc == 2 { 0 } else if cc == 3 { 0 } else { 0 }
    } else
    if r == 5 {
        if cc == 0 { 0 } else if cc == 1 { 0 } else if cc == 2 { 20 } else if cc == 3 { 0 } else { 0 }
    } else
    if r == 6 {
        if cc == 0 { 0 } else if cc == 1 { 0 } else if cc == 2 { 0 } else if cc == 3 { 0 } else { 0 }
    } else
    if r == 7 {
        if cc == 0 { 18 } else if cc == 1 { 0 } else if cc == 2 { 0 } else if cc == 3 { 0 } else { 23 }
    } else
    if r == 8 {
        if cc == 0 { 0 } else if cc == 1 { 0 } else if cc == 2 { 0 } else if cc == 3 { 0 } else { 0 }
    } else
 {
        if cc == 0 { 0 } else if cc == 1 { 0 } else if cc == 2 { 20 } else if cc == 3 { 0 } else { 0 }
    }
}

pub open spec fn pst_rook_spec(r: int, c: int) -> int {
    let cc = if 4 < c <= 8 { 8 - c } else { c };
    if r == 0 {
        if cc == 0 { 206 } else if cc == 1 { 208 } else if cc == 2 { 207 } else if cc == 3 { 213 } else { 214 }
    } else
    if r == 1 {
        if cc == 0 { 206 } else if cc == 1 { 212 } else if cc == 2 { 209 } else if cc == 3 { 216 } else { 233 }
    } else
    if r == 2 {
        if cc == 0 { 206 } else if cc == 1 { 208 } else if cc == 2 { 207 } else if cc == 3 { 214 } else { 216 }
    } else
    if r == 3 {
        if cc == 0 { 206 } else if cc == 1 { 213 } else if cc == 2 { 213 } else if cc == 3 { 216 } else { 216 }
    } else
    if r == 4 {
        if cc == 0 { 208 } else if cc == 1 { 211 } else if cc == 2 { 211 } else if cc == 3 { 214 } else { 215 }
    } else
    if r == 5 {
        if cc == 0 { 208 } else if cc == 1 { 212 } else if cc == 2 { 212 } else if cc == 3 { 214 } else { 215 }
    } else
    if r == 6 {
        if cc == 0 { 204 } else if cc == 1 { 209 } else if cc == 2 { 204 } else if cc == 3 { 212 } else { 214 }
    } else
    if r == 7 {
        if cc == 0 { 198 } else if cc == 1 { 208 } else if cc == 2 { 204 } else if cc == 3 { 212 } else { 212 }
    } else
    if r == 8 {
        if cc == 0 { 200 } else if cc == 1 { 208 } else if cc == 2 { 206 } else if cc == 3 { 212 } else { 200 }
    } else
 {
        if cc == 0 { 194 } else if cc == 1 { 206 } else if cc == 2 { 204 } else if cc == 3 { 212 } else { 200 }
    }
}

pub open spec fn pst_knight_spec(r: int, c: int) -> int {
    let cc = if 4 < c <= 8 { 8 - c } else { c };
    if r == 0 {
        if cc == 0 { 90 } else if cc == 1 { 90 } else if cc == 2 { 90 } else if cc == 3 { 96 } else { 90 }
    } else
    if r == 1 {
        if cc == 0 { 90 } else if cc == 1 { 96 } else if cc == 2 { 103 } else if cc == 3 { 97 } else { 94 }
    } else
    if r == 2 {
        if cc == 0 { 92 } else if cc == 1 { 98 } else if cc == 2 { 99 } else if cc == 3 { 103 } else { 99 }
    } else
    if r == 3 {
        if cc == 0 { 93 } else if cc == 1 { 108 } else if cc == 2 { 100 } else if cc == 3 { 107 } else { 100 }
    } else
    if r == 4 {
        if cc == 0 { 90 } else if cc == 1 { 100 } else if cc == 2 { 99 } else if cc == 3 { 103 } else { 104 }
    } else
    if r == 5 {
        if cc == 0 { 90 } else if cc == 1 { 98 } else if cc == 2 { 101 } else if cc == 3 { 102 } else { 103 }
    } else
    if r == 6 {
        if cc == 0 { 92 } else if cc == 1 { 94 } else if cc == 2 { 98 } else if cc == 3 { 95 } else { 98 }
    } else
    if r == 7 {
        if cc == 0 { 93 } else if cc == 1 { 92 } else if cc == 2 { 94 } else if cc == 3 { 95 } else { 92 }
    } else
    if r == 8 {
        if cc == 0 { 85 } else if cc == 1 { 90 } else if cc == 2 { 92 } else if cc == 3 { 93 } else { 78 }
    } else
 {
        if cc == 0 { 88 } else if cc == 1 { 85 } else if cc == 2 { 90 } else if cc == 3 { 88 } else { 90 }
    }
}

pub open spec fn pst_cannon_spec(r: int, c: int) -> int {
    let cc = if 4 < c <= 8 { 8 - c } else { c };
    if r == 0 {
        if cc == 0 { 100 } else if cc == 1 { 100 } else if cc == 2 { 96 } else if cc == 3 { 91 } else { 90 }
    } else
    if r == 1 {
        if cc == 0 { 98 } else if cc == 1 { 98 } else if cc == 2 { 96 } else if cc == 3 { 92 } else { 89 }
    } else
    if r == 2 {
        if cc == 0 { 97 } else if cc == 1 { 97 } else if cc == 2 { 96 } else if cc == 3 { 91 } else { 92 }
    } else
    if r == 3 {
        if cc == 0 { 96 } else if cc == 1 { 99 } else if cc == 2 { 99 } else if cc == 3 { 98 } else { 100 }
    } else
    if r == 4 {
        if cc == 0 { 96 } else if cc == 1 { 96 } else if cc == 2 { 96 } else if cc == 3 { 96 } else { 100 }
    } else
    if r == 5 {
        if cc == 0 { 95 } else if cc == 1 { 96 } else if cc == 2 { 99 } else if cc == 3 { 96 } else { 100 }
    } else
    if r == 6 {
        if cc == 0 { 96 } else if cc == 1 { 96 } else if cc == 2 { 96 } else if cc == 3 { 96 } else { 96 }
    } else
    if r == 7 {
        if cc == 0 { 97 } else if cc == 1 { 96 } else if cc == 2 { 100 } else if cc == 3 { 99 } else { 101 }
    } else
    if r == 8 {
        if cc == 0 { 96 } else if cc == 1 { 97 } else if cc == 2 { 98 } else if cc == 3 { 98 } else { 98 }
    } else
 {
        if cc == 0 { 96 } else if cc == 1 { 96 } else if cc == 2 { 97 } else if cc == 3 { 99 } else { 99 }
    }
}

pub open spec fn pst_pawn_spec(r: int, c: int) -> int {
    let cc = if 4 < c <= 8 { 8 - c } else { c };
    if r == 0 {
        if cc == 0 { 9 } else if cc == 1 { 9 } else if cc == 2 { 9 } else if cc == 3 { 11 } else { 13 }
    } else
    if r == 1 {
        if cc == 0 { 19 } else if cc == 1 { 24 } else if cc == 2 { 34 } else if cc == 3 { 42 } else { 44 }
    } else
    if r == 2 {
        if cc == 0 { 19 } else if cc == 1 { 24 } else if cc == 2 { 32 } else if cc == 3 { 37 } else { 37 }
    } else
    if r == 3 {
        if cc == 0 { 19 } else if cc == 1 { 23 } else if cc == 2 { 27 } else if cc == 3 { 29 } else { 30 }
    } else
    if r == 4 {
        if cc == 0 { 14 } else if cc == 1 { 18 } else if cc == 2 { 20 } else if cc == 3 { 27 } else { 29 }
    } else
    if r == 5 {
        if cc == 0 { 7 } else if cc == 1 { 0 } else if cc == 2 { 13 } else if cc == 3 { 0 } else { 16 }
    } else
    if r == 6 {
        if cc == 0 { 7 } else if cc == 1 { 0 } else if cc == 2 { 7 } else if cc == 3 { 0 } else { 15 }
    } else
    if r == 7 {
        if cc == 0 { 0 } else if cc == 1 { 0 } else if cc == 2 { 0 } else if cc == 3 { 0 } else { 0 }
    } else
    if r == 8 {
        if cc == 0 { 0 } else if cc == 1 { 0 } else if cc == 2 { 0 } else if cc == 3 { 0 } else { 0 }
    } else
 {
        if cc == 0 { 0 } else if cc == 1 { 0 } else if cc == 2 { 0 } else if cc == 3 { 0 } else { 0 }
    }
}

pub open spec fn pst_spec(ct: ChessType, r: int, c: int) -> int {
    match ct {
        ChessType::King => pst_king_spec(r, c),
        ChessType::Advisor => pst_advisor_spec(r, c),
        ChessType::Bishop => pst_bishop_spec(r, c),
        ChessType::Knight => pst_knight_spec(r, c),
        ChessType::Rook => pst_rook_spec(r, c),
        ChessType::Cannon => pst_cannon_spec(r, c),
        ChessType::Pawn => pst_pawn_spec(r, c),
    }
}

fn pst_king(r: i32, cc: i32) -> (v: i32)
    requires
        0 <= r < 10,
        0 <= cc <= 4,
    ensures
        forall|c: int| (c == cc || c == 8 - cc) ==> v == pst_king_spec(r as int, c),
{
    if r == 0 {
        if cc == 0 { 0 } else if cc == 1 { 0 } else if cc == 2 { 0 } else if cc == 3 { 0 } else { 0 }
    } else
    if r == 1 {
        if cc == 0 { 0 } else if cc == 1 { 0 } else if cc == 2 { 0 } else if cc == 3 { 0 } else { 0 }
    } else
    if r == 2 {
        if cc == 0 { 0 } else if cc == 1 { 0 } else if cc == 2 { 0 } else if cc == 3 { 0 } else { 0 }
    } else
    if r == 3 {
        if cc == 0 { 0 } else if cc == 1 { 0 } else if cc == 2 { 0 } else if cc == 3 { 0 } else { 0 }
    } else
    if r == 4 {
        if cc == 0 { 0 } else if cc == 1 { 0 } else if cc == 2 { 0 } else if cc == 3 { 0 } else { 0 }
    } else
    if r == 5 {
        if cc == 0 { 0 } else if cc == 1 { 0 } else if cc == 2 { 0 } else if cc == 3 { 0 } else { 0 }
    } else
    if r == 6 {
        if cc == 0 { 0 } else if cc == 1 { 0 } else if cc == 2 { 0 } else if cc == 3 { 0 } else { 0 }
    } else
    if r == 7 {
        if cc == 0 { 0 } else if cc == 1 { 0 } else if cc == 2 { 0 } else if cc == 3 { 1 } else { 1 }
    } else
    if r == 8 {
        if cc == 0 { 0 } else if cc == 1 { 0 } else if cc == 2 { 0 } else if cc == 3 { 2 } else { 2 }
    } else
 {
        if cc == 0 { 0 } else if cc == 1 { 0 } else if cc == 2 { 0 } else if cc == 3 { 11 } else { 15 }
    }
}

fn pst_advisor(r: i32, cc: i32) -> (v: i32)
    requires
        0 <= r < 10,
        0 <= cc <= 4,
    ensures
        forall|c: int| (c == cc || c == 8 - cc) ==> v == pst_advisor_spec(r as int, c),
{
    if r == 0 {
        if cc == 0 { 0 } else if cc == 1 { 0 } else if cc == 2 { 0 } else if cc == 3 { 0 } else { 0 }
    } else
    if r == 1 {
        if cc == 0 { 0 } else if cc == 1 { 0 } else if cc == 2 { 0 } else if cc == 3 { 0 } else { 0 }
    } else
    if r == 2 {
        if cc == 0 { 0 } else if cc == 1 { 0 } else if cc == 2 { 0 } else if cc == 3 { 0 } else { 0 }
    } else
    if r == 3 {
        if cc == 0 { 0 } else if cc == 1 { 0 } else if cc == 2 { 0 } else if cc == 3 { 0 } else { 0 }
    } else
    if r == 4 {
        if cc == 0 { 0 } else if cc == 1 { 0 } else if cc == 2 { 0 } else if cc == 3 { 0 } else { 0 }
    } else
    if r == 5 {
        if cc == 0 { 0 } else if cc == 1 { 0 } else if cc == 2 { 0 } else if cc == 3 { 0 } else { 0 }
    } else
    if r == 6 {
        if cc == 0 { 0 } else if cc == 1 { 0 } else if cc == 2 { 0 } else if cc == 3 { 0 } else { 0 }
    } else
    if r == 7 {
        if cc == 0 { 0 } else if cc == 1 { 0 } else if cc == 2 { 0 } else if cc == 3 { 20 } else { 0 }
    } else
    if r == 8 {
        if cc == 0 { 0 } else if cc == 1 { 0 } else if cc == 2 { 0 } else if cc == 3 { 0 } else { 23 }
    } else
 {
        if cc == 0 { 0 } else if cc == 1 { 0 } else if cc == 2 { 0 } else if cc == 3 { 20 } else { 0 }
    }
}

fn pst_bishop(r: i32, cc: i32) -> (v: i32)
    requires
        0 <= r < 10,
        0 <= cc <= 4,
    ensures
        forall|c: int| (c == cc || c == 8 - cc) ==> v == pst_bishop_spec(r as int, c),
{
    if r == 0 {
        if cc == 0 { 0 } else if cc == 1 { 0 } else if cc == 2 { 0 } else if cc == 3 { 0 } else { 0 }
    } else
    if r == 1 {
        if cc == 0 { 0 } else if cc == 1 { 0 } else if cc == 2 { 0 } else if cc == 3 { 0 } else { 0 }
    } else
    if r == 2 {
        if cc == 0 { 0 } else if cc == 1 { 0 } else if cc == 2 { 0 } else if cc == 3 { 0 } else { 0 }
    } else
    if r == 3 {
        if cc == 0 { 0 } else if cc == 1 { 0 } else if cc == 2 { 0 } else if cc == 3 { 0 } else { 0 }
    } else
    if r == 4 {
        if cc == 0 { 0 } else if cc == 1 { 0 } else if cc == 2 { 0 } else if cc == 3 { 0 } else { 0 }
    } else
    if r == 5 {
        if cc == 0 { 0 } else if cc == 1 { 0 } else if cc == 2 { 20 } else if cc == 3 { 0 } else { 0 }
    } else
    if r == 6 {
        if cc == 0 { 0 } else if cc == 1 { 0 } else if cc == 2 { 0 } else if cc == 3 { 0 } else { 0 }
    } else
    if r == 7 {
        if cc == 0 { 18 } else if cc == 1 { 0 } else if cc == 2 { 0 } else if cc == 3 { 0 } else { 23 }
    } else
    if r == 8 {
        if cc == 0 { 0 } else if cc == 1 { 0 } else if cc == 2 { 0 } else if cc == 3 { 0 } else { 0 }
    } else
 {
        if cc == 0 { 0 } else if cc == 1 { 0 } else if cc == 2 { 20 } else if cc == 3 { 0 } else { 0 }
    }
}

fn pst_rook(r: i32, cc: i32) -> (v: i32)
    requires
        0 <= r < 10,
        0 <= cc <= 4,
    ensures
        forall|c: int| (c == cc || c == 8 - cc) ==> v == pst_rook_spec(r as int, c),
{
    if r == 0 {
        if cc == 0 { 206 } else if cc == 1 { 208 } else if cc == 2 { 207 } else if cc == 3 { 213 } else { 214 }
    } else
    if r == 1 {
        if cc == 0 { 206 } else if cc == 1 { 212 } else if cc == 2 { 209 } else if cc == 3 { 216 } else { 233 }
    } else
    if r == 2 {
        if cc == 0 { 206 } else if cc == 1 { 208 } else if cc == 2 { 207 } else if cc == 3 { 214 } else { 216 }
    } else
    if r == 3 {
        if cc == 0 { 206 } else if cc == 1 { 213 } else if cc == 2 { 213 } else if cc == 3 { 216 } else { 216 }
    } else
    if r == 4 {
        if cc == 0 { 208 } else if cc == 1 { 211 } else if cc == 2 { 211 } else if cc == 3 { 214 } else { 215 }
    } else
    if r == 5 {
        if cc == 0 { 208 } else if cc == 1 { 212 } else if cc == 2 { 212 } else if cc == 3 { 214 } else { 215 }
    } else
    if r == 6 {
        if cc == 0 { 204 } else if cc == 1 { 209 } else if cc == 2 { 204 } else if cc == 3 { 212 } else { 214 }
    } else
    if r == 7 {
        if cc == 0 { 198 } else if cc == 1 { 208 } else if cc == 2 { 204 } else if cc == 3 { 212 } else { 212 }
    } else
    if r == 8 {
        if cc == 0 { 200 } else if cc == 1 { 208 } else if cc == 2 { 206 } else if cc == 3 { 212 } else { 200 }
    } else
 {
        if cc == 0 { 194 } else if cc == 1 { 206 } else if cc == 2 { 204 } else if cc == 3 { 212 } else { 200 }
    }
}

fn pst_knight(r: i32, cc: i32) -> (v: i32)
    requires
        0 <= r < 10,
        0 <= cc <= 4,
    ensures
        forall|c: int| (c == cc || c == 8 - cc) ==> v == pst_knight_spec(r as int, c),
{
    if r == 0 {
        if cc == 0 { 90 } else if cc == 1 { 90 } else if cc == 2 { 90 } else if cc == 3 { 96 } else { 90 }
    } else
    if r == 1 {
        if cc == 0 { 90 } else if cc == 1 { 96 } else if cc == 2 { 103 } else if cc == 3 { 97 } else { 94 }
    } else
    if r == 2 {
        if cc == 0 { 92 } else if cc == 1 { 98 } else if cc == 2 { 99 } else if cc == 3 { 103 } else { 99 }
    } else
    if r == 3 {
        if cc == 0 { 93 } else if cc == 1 { 108 } else if cc == 2 { 100 } else if cc == 3 { 107 } else { 100 }
    } else
    if r == 4 {
        if cc == 0 { 90 } else if cc == 1 { 100 } else if cc == 2 { 99 } else if cc == 3 { 103 } else { 104 }
    } else
    if r == 5 {
        if cc == 0 { 90 } else if cc == 1 { 98 } else if cc == 2 { 101 } else if cc == 3 { 102 } else { 103 }
    } else
    if r == 6 {
        if cc == 0 { 92 } else if cc == 1 { 94 } else if cc == 2 { 98 } else if cc == 3 { 95 } else { 98 }
    } else
    if r == 7 {
        if cc == 0 { 93 } else if cc == 1 { 92 } else if cc == 2 { 94 } else if cc == 3 { 95 } else { 92 }
    } else
    if r == 8 {
        if cc == 0 { 85 } else if cc == 1 { 90 } else if cc == 2 { 92 } else if cc == 3 { 93 } else { 78 }
    } else
 {
        if cc == 0 { 88 } else if cc == 1 { 85 } else if cc == 2 { 90 } else if cc == 3 { 88 } else { 90 }
    }
}

fn pst_cannon(r: i32, cc: i32) -> (v: i32)
    requires
        0 <= r < 10,
        0 <= cc <= 4,
    ensures
        forall|c: int| (c == cc || c == 8 - cc) ==> v == pst_cannon_spec(r as int, c),
{
    if r == 0 {
        if cc == 0 { 100 } else if cc == 1 { 100 } else if cc == 2 { 96 } else if cc == 3 { 91 } else { 90 }
    } else
    if r == 1 {
        if cc == 0 { 98 } else if cc == 1 { 98 } else if cc == 2 { 96 } else if cc == 3 { 92 } else { 89 }
    } else
    if r == 2 {
        if cc == 0 { 97 } else if cc == 1 { 97 } else if cc == 2 { 96 } else if cc == 3 { 91 } else { 92 }
    } else
    if r == 3 {
        if cc == 0 { 96 } else if cc == 1 { 99 } else if cc == 2 { 99 } else if cc == 3 { 98 } else { 100 }
    } else
    if r == 4 {
        if cc == 0 { 96 } else if cc == 1 { 96 } else if cc == 2 { 96 } else if cc == 3 { 96 } else { 100 }
    } else
    if r == 5 {
        if cc == 0 { 95 } else if cc == 1 { 96 } else if cc == 2 { 99 } else if cc == 3 { 96 } else { 100 }
    } else
    if r == 6 {
        if cc == 0 { 96 } else if cc == 1 { 96 } else if cc == 2 { 96 } else if cc == 3 { 96 } else { 96 }
    } else
    if r == 7 {
        if cc == 0 { 97 } else if cc == 1 { 96 } else if cc == 2 { 100 } else if cc == 3 { 99 } else { 101 }
    } else
    if r == 8 {
        if cc == 0 { 96 } else if cc == 1 { 97 } else if cc == 2 { 98 } else if cc == 3 { 98 } else { 98 }
    } else
 {
        if cc == 0 { 96 } else if cc == 1 { 96 } else if cc == 2 { 97 } else if cc == 3 { 99 } else { 99 }
    }
}

fn pst_pawn(r: i32, cc: i32) -> (v: i32)
    requires
        0 <= r < 10,
        0 <= cc <= 4,
    ensures
        forall|c: int| (c == cc || c == 8 - cc) ==> v == pst_pawn_spec(r as int, c),
{
    if r == 0 {
        if cc == 0 { 9 } else if cc == 1 { 9 } else if cc == 2 { 9 } else if cc == 3 { 11 } else { 13 }
    } else
    if r == 1 {
        if cc == 0 { 19 } else if cc == 1 { 24 } else if cc == 2 { 34 } else if cc == 3 { 42 } else { 44 }
    } else
    if r == 2 {
        if cc == 0 { 19 } else if cc == 1 { 24 } else if cc == 2 { 32 } else if cc == 3 { 37 } else { 37 }
    } else
    if r == 3 {
        if cc == 0 { 19 } else if cc == 1 { 23 } else if cc == 2 { 27 } else if cc == 3 { 29 } else { 30 }
    } else
    if r == 4 {
        if cc == 0 { 14 } else if cc == 1 { 18 } else if cc == 2 { 20 } else if cc == 3 { 27 } else { 29 }
    } else
    if r == 5 {
        if cc == 0 { 7 } else if cc == 1 { 0 } else if cc == 2 { 13 } else if cc == 3 { 0 } else { 16 }
    } else
    if r == 6 {
        if cc == 0 { 7 } else if cc == 1 { 0 } else if cc == 2 { 7 } else if cc == 3 { 0 } else { 15 }
    } else
    if r == 7 {
        if cc == 0 { 0 } else if cc == 1 { 0 } else if cc == 2 { 0 } else if cc == 3 { 0 } else { 0 }
    } else
    if r == 8 {
        if cc == 0 { 0 } else if cc == 1 { 0 } else if cc == 2 { 0 } else if cc == 3 { 0 } else { 0 }
    } else
 {
        if cc == 0 { 0 } else if cc == 1 { 0 } else if cc == 2 { 0 } else if cc == 3 { 0 } else { 0 }
    }
}

/// Positional value of `ct` on square `(r, c)` from Red's perspective.
pub fn pst_value(ct: ChessType, r: i32, c: i32) -> (v: i32)
    requires
        0 <= r < 10,
        0 <= c < 9,
    ensures
        v == pst_spec(ct, r as int, c as int),
{
    let cc: i32 = if c > 4 { 8 - c } else { c };
    match ct {
        ChessType::King => pst_king(r, cc),
        ChessType::Advisor => pst_advisor(r, cc),
        ChessType::Bishop => pst_bishop(r, cc),
        ChessType::Knight => pst_knight(r, cc),
        ChessType::Rook => pst_rook(r, cc),
        ChessType::Cannon => pst_cannon(r, cc),
        ChessType::Pawn => pst_pawn(r, cc),
    }
}

/// Everything a piece is worth on flat square `k`: material plus the
/// positional table, with Black reading the table through a half turn.
pub open spec fn piece_square_value_spec(c: Chess, k: int) -> int {
    match c {
        Chess::Empty => 0,
        Chess::Red(ct) => ct.material_spec() + pst_spec(ct, k / 9, k % 9),
        Chess::Black(ct) => ct.material_spec() + pst_spec(ct, 9 - k / 9, 8 - k % 9),
    }
}

/// What the piece on square `k` adds to `player`'s side total.
pub open spec fn side_term(c: Chess, player: Player, k: int) -> int {
    if c.belongs_spec(player) {
        piece_square_value_spec(c, k)
    } else {
        0
    }
}

/// Sum of `player`'s piece values over the first `n` flat squares.
pub open spec fn side_sum(g: Seq<Chess>, player: Player, n: int) -> int
    decreases n,
{
    if n <= 0 {
        0
    } else {
        side_sum(g, player, n - 1) + side_term(g[n - 1], player, n - 1)
    }
}

#[verifier::rlimit(50)]
pub proof fn lemma_pst_bounds(ct: ChessType, r: int, c: int)
    ensures
        0 <= pst_spec(ct, r, c) <= 233,
{
}

pub proof fn lemma_side_term_bounds(c: Chess, player: Player, k: int)
    ensures
        0 <= side_term(c, player, k) <= 10233,
{
    match c {
        Chess::Empty => {
        }
        Chess::Red(ct) => {
            lemma_pst_bounds(ct, k / 9, k % 9);
        }
        Chess::Black(ct) => {
            lemma_pst_bounds(ct, 9 - k / 9, 8 - k % 9);
        }
    }
}

pub proof fn lemma_side_sum_bounds(g: Seq<Chess>, player: Player, n: int)
    requires
        0 <= n,
    ensures
        0 <= side_sum(g, player, n) <= n * 10233,
    decreases n,
{
    if n > 0 {
        lemma_side_sum_bounds(g, player, n - 1);
        lemma_side_term_bounds(g[n - 1], player, n - 1);
        assert((n - 1) * 10233 + 10233 == n * 10233) by (nonlinear_arith);
    }
}

pub proof fn lemma_side_sum_congruence(g1: Seq<Chess>, g2: Seq<Chess>, player: Player, n: int)
    requires
        forall|i: int| 0 <= i < n ==> g1[i] == g2[i],
    ensures
        side_sum(g1, player, n) == side_sum(g2, player, n),
    decreases n,
{
    if n > 0 {
        lemma_side_sum_congruence(g1, g2, player, n - 1);
    }
}

/// Changing one square changes a side total by the difference of that
/// square's old and new contributions.
pub proof fn lemma_side_sum_update(g: Seq<Chess>, p: Chess, player: Player, j: int, n: int)
    requires
        0 <= j < n <= g.len(),
    ensures
        side_sum(g.update(j, p), player, n) == side_sum(g, player, n) - side_term(
            g[j],
            player,
            j,
        ) + side_term(p, player, j),
    decreases n,
{
    let g2 = g.update(j, p);
    if j == n - 1 {
        assert(forall|i: int| 0 <= i < n - 1 ==> g[i] == g2[i]);
        lemma_side_sum_congruence(g, g2, player, n - 1);
    } else {
        lemma_side_sum_update(g, p, player, j, n - 1);
    }
}

} // verus!
