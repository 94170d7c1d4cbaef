use nchess::engine::{PreLoad, UCCIEngine};
use nchess::piece::{Chess, ChessType, Player};
use nchess::pos::Position;

#[test]
fn test_ucci_engine() {
    let mut engine = UCCIEngine::new(Vec::new());
    engine.position(
        "fen rnbakabnr/9/1c5c1/p1p1p1p1p/9/9/P1P1P1P1P/1C5C1/9/RNBAKABNR w - - 0 1 moves b2d2 b9a7 a9a8 h7h0 b0a2 a8d8 a0b0 d8d2 b0b7 d2h2 b7g7 h9g7 g3g4 i9h9",
    );
    engine.go(4);
    println!("{:?}", engine.board.chesses);
    println!("{} {}", engine.search.gen_counter, engine.search.counter);
}

#[test]
fn test_kill() {
    let mut engine = UCCIEngine::new(Vec::new());
    engine.position("fen 4k4/9/9/9/9/9/9/4p4/9/5K3 b - - 0 1");
    let moves = engine.board.generate_move(false);
    println!("{:?}", moves);
    println!("{:?}", engine.board.chesses);
    engine.go(8);
    println!("{} {}", engine.search.gen_counter, engine.search.counter);
}

// `position startpos` with a move list plays exactly the legal prefix.
#[test]
fn position_startpos_with_moves() {
    let mut engine = UCCIEngine::new(Vec::new());
    engine.position("startpos moves b2e2");
    // Cannon b2 -> e2: from (7, 1) to (7, 4).
    assert_eq!(engine.board.chess_at(Position::new(7, 4)), Chess::Red(ChessType::Cannon));
    assert_eq!(engine.board.chess_at(Position::new(7, 1)), Chess::Empty);
    assert_eq!(engine.board.turn, Player::Black);
}

// An illegal entry stops the apply sequence at that point.
#[test]
fn position_stops_at_illegal_move() {
    let mut engine = UCCIEngine::new(Vec::new());
    engine.position("startpos moves a0a5 b2e2");
    // Rook a0 over the pawn is illegal, so nothing is played.
    let fresh = UCCIEngine::new(Vec::new());
    assert_eq!(engine.board.chesses, fresh.board.chesses);
    assert_eq!(engine.board.turn, Player::Red);
}

// A command that matches neither form leaves the position alone.
#[test]
fn position_ignores_unknown_command() {
    let mut engine = UCCIEngine::new(Vec::new());
    engine.position("startpos moves b2e2");
    let grid = engine.board.chesses.clone();
    engine.position("banana");
    assert_eq!(engine.board.chesses, grid);
}

// Move strings are validated against the position: a malformed or illegal
// string parses to nothing, a legal one to the completed move.
#[test]
fn parse_move_string_validates() {
    let engine = UCCIEngine::new(Vec::new());
    assert!(engine.parse_move_string("b2e").is_none());
    assert!(engine.parse_move_string("b2e2x").is_none());
    assert!(engine.parse_move_string("a0a5").is_none());
    let m = engine.parse_move_string("b2e2").expect("a legal move");
    assert_eq!(m.from, Position::new(7, 1));
    assert_eq!(m.to, Position::new(7, 4));
    assert_eq!(m.chess, Chess::Red(ChessType::Cannon));
    assert_eq!(m.capture, Chess::Empty);
    assert_eq!(m.player, Player::Red);
}

// An empty book answers nothing; a book entry for the opening position is
// found, and its move comes back completed and legal.
#[test]
fn book_probe() {
    let engine = UCCIEngine::new(Vec::new());
    assert!(!engine.has_book_move());
    assert!(engine.get_book_move().is_none());

    let probe = UCCIEngine::new(Vec::new());
    let entry = PreLoad {
        zobrist_value: probe.board.zobrist_value,
        zobrist_value_check: probe.board.zobrist_value_lock,
        best_move_from: Position::new(7, 1),
        best_move_to: Position::new(7, 4),
        weight: 1,
    };
    let engine = UCCIEngine::new(vec![entry]);
    assert!(engine.has_book_move());
    let m = engine.get_book_move().expect("the booked move");
    assert_eq!(m.from, Position::new(7, 1));
    assert_eq!(m.to, Position::new(7, 4));
    let (value, best) = {
        let mut e = engine;
        e.go(4)
    };
    assert_eq!(value, 0);
    assert_eq!(best.expect("book move").from, Position::new(7, 1));
}

// A book entry whose lock hash does not match is a miss.
#[test]
fn book_lock_mismatch_is_miss() {
    let probe = UCCIEngine::new(Vec::new());
    let entry = PreLoad {
        zobrist_value: probe.board.zobrist_value,
        zobrist_value_check: probe.board.zobrist_value_lock ^ 1,
        best_move_from: Position::new(7, 1),
        best_move_to: Position::new(7, 4),
        weight: 1,
    };
    let engine = UCCIEngine::new(vec![entry]);
    assert!(!engine.has_book_move());
}

// A parameter that merely begins with the `startpos` letters is no
// command: the position is left alone.
#[test]
fn position_startpos_prefix_is_not_a_command() {
    let mut engine = UCCIEngine::new(Vec::new());
    engine.position("startpos moves b2e2");
    let grid = engine.board.chesses.clone();
    engine.position("startposx");
    assert_eq!(engine.board.chesses, grid);
    assert_eq!(engine.board.turn, Player::Black);
}
