use nchess::board::Board;
use nchess::constant::{MAX, MIN};
use nchess::moves::Move;
use nchess::piece::Player;
use nchess::pos::Position;
use nchess::search::SearchState;

#[test]
fn test_alpha_beta_pvs() {
    let mut search = SearchState::new();
    let mut board = Board::init();
    println!("{:?}", search.alpha_beta_pvs(&mut board, 1, MIN, MAX));
}

fn mv(board: &Board, from: Position, to: Position) -> Move {
    Move {
        player: board.turn,
        from,
        to,
        chess: board.chess_at(from),
        capture: board.chess_at(to),
    }
}

// A playout of legal moves: after every ply the incremental hashes and
// side totals must equal a from-scratch recomputation, and unwinding the
// whole line must restore the opening position bit for bit.
#[test]
fn playout_keeps_increments_exact() {
    let mut search = SearchState::new();
    let mut board = Board::init();
    let board0 = Board::init();
    let mut line: Vec<Move> = Vec::new();
    for ply in 0..40 {
        let moves = board.generate_move(false);
        let mut chosen: Option<Move> = None;
        for (k, m) in moves.iter().enumerate() {
            if board.is_move_legal(m) && (k + ply) % 3 == 0 {
                chosen = Some(*m);
                break;
            }
        }
        let m = match chosen {
            Some(m) => m,
            None => break,
        };
        search.push_move(&mut board, &m);
        line.push(m);
        let fresh = Board::from_grid(board.chesses.clone(), board.turn);
        assert_eq!(board.zobrist_value, fresh.zobrist_value);
        assert_eq!(board.zobrist_value_lock, fresh.zobrist_value_lock);
        assert_eq!(board.vl_red, fresh.vl_red);
        assert_eq!(board.vl_black, fresh.vl_black);
    }
    while let Some(m) = line.pop() {
        search.pop_move(&mut board, &m);
    }
    assert_eq!(board.chesses, board0.chesses);
    assert_eq!(board.turn, board0.turn);
    assert_eq!(board.zobrist_value, board0.zobrist_value);
    assert_eq!(board.zobrist_value_lock, board0.zobrist_value_lock);
    assert_eq!(board.vl_red, board0.vl_red);
    assert_eq!(board.vl_black, board0.vl_black);
}

// Red mates in one: the rook steps to the King's column, covered by the
// flying-general rule. The search must return a mate-magnitude score and a
// move that leaves Black without a legal reply.
#[test]
fn mate_in_one() {
    let mut search = SearchState::new();
    let mut board = Board::from_fen("3k5/9/9/9/9/9/9/9/2R6/4K4 w");
    let (value, best) = search.iterative_deepening(&mut board, 2);
    assert!(value > 30000);
    let m = best.expect("a mating move");
    assert!(board.is_move_legal(&m));
    board.apply_move(&m);
    let replies = board.generate_move(false);
    let mut legal = 0;
    for r in &replies {
        if board.is_move_legal(r) {
            legal += 1;
        }
    }
    assert_eq!(legal, 0);
}

// Four quiet moves that return to the opening position: the repetition
// walk reports a plain repetition (no perpetual-check bit either way).
#[test]
fn repetition_plain_draw() {
    let mut search = SearchState::new();
    let mut board = Board::init();
    let cycle = [
        (Position::new(9, 1), Position::new(7, 2)),
        (Position::new(0, 1), Position::new(2, 2)),
        (Position::new(7, 2), Position::new(9, 1)),
        (Position::new(2, 2), Position::new(0, 1)),
    ];
    for (f, t) in cycle {
        let m = mv(&board, f, t);
        assert!(board.is_move_legal(&m));
        search.push_move(&mut board, &m);
    }
    let status = search.rep_status(&board, 1);
    assert_eq!(status, 1);
    assert!(status & 1 != 0);
    let v = search.rep_value(status);
    assert_eq!(v, -20);
}

// A rook checks on every Red move of a four-ply loop: the repetition walk
// must set the repetition bit and Red's perpetual-check bit, and the score
// is the near-mate loss for the checking side.
#[test]
fn repetition_perpetual_check_ban() {
    let mut search = SearchState::new();
    let mut board = Board::from_fen("4k4/9/9/9/R8/9/9/9/9/3K5 w");
    let cycle = [
        (Position::new(4, 0), Position::new(4, 4)),
        (Position::new(0, 4), Position::new(0, 5)),
        (Position::new(4, 4), Position::new(4, 5)),
        (Position::new(0, 5), Position::new(0, 4)),
        (Position::new(4, 5), Position::new(4, 4)),
        (Position::new(0, 4), Position::new(0, 5)),
        (Position::new(4, 4), Position::new(4, 5)),
        (Position::new(0, 5), Position::new(0, 4)),
    ];
    for (f, t) in cycle {
        let m = mv(&board, f, t);
        assert!(board.is_move_legal(&m), "move {:?} should be legal", m);
        search.push_move(&mut board, &m);
    }
    let status = search.rep_status(&board, 1);
    assert_eq!(status, 3);
    let v = search.rep_value(status);
    assert_eq!(v, -(30000 - 100) + 8);
}

// The repetition score's sign alternates with the distance from the root.
#[test]
fn rep_value_parity() {
    let search = SearchState::new();
    assert_eq!(search.rep_value(1), -20);
    let mut search = SearchState::new();
    let mut board = Board::init();
    let m = mv(&board, Position::new(9, 1), Position::new(7, 2));
    search.push_move(&mut board, &m);
    assert_eq!(search.rep_value(1), 20);
}

// The searcher hands the position back exactly as it received it.
#[test]
fn search_restores_board() {
    let mut search = SearchState::new();
    let mut board = Board::init();
    let before_grid = board.chesses.clone();
    let before_zob = board.zobrist_value;
    let before_lock = board.zobrist_value_lock;
    let (_v, bm) = search.alpha_beta_pvs(&mut board, 2, MIN, MAX);
    assert!(bm.is_some());
    assert_eq!(board.chesses, before_grid);
    assert_eq!(board.turn, Player::Red);
    assert_eq!(board.zobrist_value, before_zob);
    assert_eq!(board.zobrist_value_lock, before_lock);
    assert_eq!(search.distance, 0);
}
