use nchess::board::Board;
use nchess::moves::Move;
use nchess::piece::{Chess, ChessType, Player};
use nchess::pos::Position;

#[test]
fn it_works() {
    let result = nchess::add(2, 2);
    assert_eq!(result, 4);
}

#[test]
fn test_generate_move() {
    let board = Board::init();
    for _ in 0..1_000 {
        board.generate_move(false);
    }
    assert_eq!(Board::init().generate_move(false).len(), 5 + 24 + 4 + 4 + 4 + 2 + 1);
}

#[test]
fn test_is_checked() {
    let board = Board::init();
    for _ in 0..10_000 {
        board.is_checked(Player::Red);
    }
    assert_eq!(Board::init().generate_move(false).len(), 5 + 24 + 4 + 4 + 4 + 2 + 1);
}

#[test]
fn test_move_and_unmove() {
    let mut board = Board::init();
    for _i in 0..8_000 {
        let m = Move {
            player: Player::Red,
            from: Position::new(0, 0),
            to: Position::new(1, 0),
            chess: Chess::Red(ChessType::Rook),
            capture: Chess::Empty,
        };
        board.apply_move(&m);
        board.undo_move(&m);
    }
    assert_eq!(Board::init().generate_move(false).len(), 5 + 24 + 4 + 4 + 4 + 2 + 1);
}

#[test]
fn test_evaluate() {
    let mut board = Board::init();
    board.apply_move(&Move {
        player: Player::Red,
        from: Position { row: 9, col: 8 },
        to: Position { row: 7, col: 8 },
        chess: Chess::Red(ChessType::Rook),
        capture: Chess::Empty,
    });
    for _i in 0..10_000 {
        board.evaluate(Player::Red);
    }
    assert_eq!(board.evaluate(Player::Red), 7);
}

#[test]
fn test_from_fen() {
    let fen = "rnb1kabnr/4a4/1c5c1/p1p3p2/4N4/8p/P1P3P1P/2C4C1/9/RNBAKAB1R w - - 0 1 moves e5d7";
    println!("{:?}", Board::from_fen(fen).chesses);
}

#[test]
fn test_king_eye_to_eye() {
    let board = Board::from_fen("rnbakabnr/9/1c5c1/9/9/9/9/1C5C1/9/RNBAKABNR w - - 0 1");
    println!("{:?}", board.chesses);
    println!("{}", board.king_eye_to_eye());
    let board = Board::init();
    println!("{}", board.king_eye_to_eye());
}

// The root of the opening position has exactly 44 legal moves: 5 pawn
// steps, 24 knight and rook moves, and 15 more from the other pieces.
#[test]
fn root_move_count_is_44() {
    let board = Board::init();
    let moves = board.generate_move(false);
    assert_eq!(moves.len(), 44);
    let mut legal = 0;
    for m in &moves {
        assert!(board.is_valid_move(m));
        if board.is_move_legal(m) {
            legal += 1;
        }
    }
    assert_eq!(legal, 44);
}

// With every pawn and cannon screen removed, the two Kings face each other
// on an open column: both sides count as checked. From the opening layout
// neither does.
#[test]
fn flying_general_detection() {
    let board = Board::from_fen("rnbakabnr/9/1c5c1/9/9/9/9/1C5C1/9/RNBAKABNR w");
    assert!(board.king_eye_to_eye());
    assert!(board.is_checked(Player::Red));
    assert!(board.is_checked(Player::Black));
    let board = Board::init();
    assert!(!board.king_eye_to_eye());
    assert!(!board.is_checked(Player::Red));
    assert!(!board.is_checked(Player::Black));
}

// Parsing the FEN of the opening position agrees with the initial-layout
// constructor on the grid, both hashes and both side totals.
#[test]
fn fen_round_trip_matches_init() {
    let parsed = Board::from_fen("rnbakabnr/9/1c5c1/p1p1p1p1p/9/9/P1P1P1P1P/1C5C1/9/RNBAKABNR w");
    let built = Board::init();
    assert_eq!(parsed.chesses, built.chesses);
    assert_eq!(parsed.turn, built.turn);
    assert_eq!(parsed.zobrist_value, built.zobrist_value);
    assert_eq!(parsed.zobrist_value_lock, built.zobrist_value_lock);
    assert_eq!(parsed.vl_red, built.vl_red);
    assert_eq!(parsed.vl_black, built.vl_black);
}

// A FEN naming Black to move.
#[test]
fn fen_black_to_move() {
    let board = Board::from_fen("4k4/9/9/9/9/9/9/4p4/9/5K3 b - - 0 1");
    assert_eq!(board.turn, Player::Black);
    assert_eq!(board.chess_at(Position::new(0, 4)), Chess::Black(ChessType::King));
    assert_eq!(board.chess_at(Position::new(9, 5)), Chess::Red(ChessType::King));
    assert_eq!(board.chess_at(Position::new(7, 4)), Chess::Black(ChessType::Pawn));
}

// A null move flips only the turn; taking it back restores the turn, the
// grid and both hashes. The side-to-move key is folded on the way in and
// out, so the hash pair tracks (grid, turn) across null moves too.
#[test]
fn null_move_round_trip() {
    let mut board = Board::init();
    let grid0 = board.chesses.clone();
    let turn0 = board.turn;
    let zob0 = board.zobrist_value;
    let lock0 = board.zobrist_value_lock;
    board.do_null_move();
    assert_eq!(board.turn, Player::Black);
    assert_eq!(board.chesses, grid0);
    board.undo_null_move();
    assert_eq!(board.turn, turn0);
    assert_eq!(board.chesses, grid0);
    assert_eq!(board.zobrist_value, zob0);
    assert_eq!(board.zobrist_value_lock, lock0);
}

// Applying any legal move and undoing it restores the position bit for
// bit: grid, turn, both hashes, both side totals.
#[test]
fn apply_undo_restores_position() {
    let board0 = Board::init();
    let moves = board0.generate_move(false);
    for m in &moves {
        let mut board = Board::init();
        board.apply_move(m);
        board.undo_move(m);
        assert_eq!(board.chesses, board0.chesses);
        assert_eq!(board.turn, board0.turn);
        assert_eq!(board.zobrist_value, board0.zobrist_value);
        assert_eq!(board.zobrist_value_lock, board0.zobrist_value_lock);
        assert_eq!(board.vl_red, board0.vl_red);
        assert_eq!(board.vl_black, board0.vl_black);
    }
}

// After a capture-free opening move, the incremental hashes and side
// totals agree with a from-scratch recomputation over the new grid.
#[test]
fn incremental_fields_match_recomputation() {
    let mut board = Board::init();
    let moves = board.generate_move(false);
    let m = moves[0];
    board.apply_move(&m);
    let fresh = Board::from_grid(board.chesses.clone(), board.turn);
    assert_eq!(board.zobrist_value, fresh.zobrist_value);
    assert_eq!(board.zobrist_value_lock, fresh.zobrist_value_lock);
    assert_eq!(board.vl_red, fresh.vl_red);
    assert_eq!(board.vl_black, fresh.vl_black);
}

// Material values of the piece kinds.
#[test]
fn material_values() {
    assert_eq!(ChessType::King.material_value(), 10000);
    assert_eq!(ChessType::Rook.material_value(), 200);
    assert_eq!(ChessType::Cannon.material_value(), 100);
    assert_eq!(ChessType::Knight.material_value(), 90);
    assert_eq!(ChessType::Advisor.material_value(), 20);
    assert_eq!(ChessType::Bishop.material_value(), 20);
    assert_eq!(ChessType::Pawn.material_value(), 10);
    assert_eq!(Chess::Empty.material_value(), 0);
}

// Two different move orders that reach the same position give the same
// hash pair: the hashes are functions of (grid, turn) alone.
#[test]
fn transposition_hashes_agree() {
    let mut a = Board::init();
    let mut b = Board::init();
    // Red knight out, Black cannon over, Red cannon over, Black knight out;
    // and the same four moves with Red's two and Black's two swapped.
    let order_a = [
        ((9, 1), (7, 2)),
        ((0, 1), (2, 2)),
        ((7, 1), (5, 1)),
        ((2, 1), (4, 1)),
    ];
    let order_b = [
        ((7, 1), (5, 1)),
        ((2, 1), (4, 1)),
        ((9, 1), (7, 2)),
        ((0, 1), (2, 2)),
    ];
    for ((fr, fc), (tr, tc)) in order_a {
        let from = Position::new(fr, fc);
        let to = Position::new(tr, tc);
        let m = Move { player: a.turn, from, to, chess: a.chess_at(from), capture: a.chess_at(to) };
        assert!(a.is_move_legal(&m));
        a.apply_move(&m);
    }
    for ((fr, fc), (tr, tc)) in order_b {
        let from = Position::new(fr, fc);
        let to = Position::new(tr, tc);
        let m = Move { player: b.turn, from, to, chess: b.chess_at(from), capture: b.chess_at(to) };
        assert!(b.is_move_legal(&m));
        b.apply_move(&m);
    }
    assert_eq!(a.chesses, b.chesses);
    assert_eq!(a.turn, b.turn);
    assert_eq!(a.zobrist_value, b.zobrist_value);
    assert_eq!(a.zobrist_value_lock, b.zobrist_value_lock);
}

// The capture-only generator emits captures alone, and each is
// pseudo-legal.
#[test]
fn capture_only_generation() {
    let board = Board::from_fen("rnbakabnr/9/1c5c1/p1p1p1p1p/9/2B6/P1P1P1P1P/1C5C1/9/RN1AKABNR b");
    let captures = board.generate_move(true);
    for m in &captures {
        assert_ne!(m.capture, Chess::Empty);
        assert!(board.is_valid_move(m));
    }
}

// Unknown letters in a FEN advance a column without placing a piece, and a
// missing side-to-move token leaves Red to move.
#[test]
fn fen_malformed_is_tolerated() {
    let board = Board::from_fen("xkx6/9/9/9/9/9/9/9/9/4K4");
    assert_eq!(board.turn, Player::Red);
    assert_eq!(board.chess_at(Position::new(0, 0)), Chess::Empty);
    assert_eq!(board.chess_at(Position::new(0, 1)), Chess::Black(ChessType::King));
    assert_eq!(board.chess_at(Position::new(0, 2)), Chess::Empty);
}
