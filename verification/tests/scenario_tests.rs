//! Fixed scenarios: known move counts, the opening round trip, notation
//! round trips, special moves, and the pool model's teardown protocol.

use chesscore::board::Board;
use chesscore::pool::PoolModel;
use chesscore::types::{GenTypes, Piece, Player};

const START_FEN: &str = "rnbqkbnr/pppppppp/8/8/8/8/PPPPPPPP/RNBQKBNR w KQkq - 0 1";

#[test]
fn starting_position_has_twenty_moves() {
    let board = Board::default();
    assert_eq!(board.generate_moves().len(), 20);
}

#[test]
fn e2e4_has_twenty_replies_and_undo_restores_start() {
    let mut board = Board::default();
    assert!(board.apply_uci_move("e2e4"));
    assert_eq!(board.generate_moves().len(), 20);
    board.undo_move();
    assert_eq!(board.get_fen(), START_FEN);
}

#[test]
fn start_fen_renders_exactly() {
    let board = Board::default();
    assert_eq!(board.get_fen(), START_FEN);
}

#[test]
fn fen_import_round_trips() {
    let fens = [
        START_FEN,
        "rnbqkbnr/pppppppp/8/8/4P3/8/PPPP1PPP/RNBQKBNR b KQkq e3 0 1",
        "r3k2r/8/8/8/8/8/8/R3K2R w KQkq - 0 1",
        "7k/P7/8/8/8/8/8/7K w - - 12 34",
        "8/8/8/3k4/8/3K4/8/8 b - - 99 120",
    ];
    for f in fens.iter() {
        let board = Board::new_from_fen(f).unwrap();
        assert_eq!(board.get_fen(), *f);
    }
}

#[test]
fn malformed_fen_is_rejected() {
    assert!(Board::new_from_fen("").is_none());
    assert!(Board::new_from_fen("rnbqkbnr/pppppppp/8/8").is_none());
    // Two white kings.
    assert!(Board::new_from_fen("7k/8/8/8/8/8/8/6KK w - - 0 1").is_none());
    // No black king.
    assert!(Board::new_from_fen("8/8/8/8/8/8/8/6K1 w - - 0 1").is_none());
    // A rank with nine squares.
    assert!(Board::new_from_fen("9/8/8/8/8/7k/8/6K1 w - - 0 1").is_none());
    // An en-passant square with no pawn behind it.
    assert!(Board::new_from_fen("7k/8/8/8/8/8/8/6K1 w - e6 0 1").is_none());
}

#[test]
fn pool_teardown_twice_is_noop() {
    let mut pool = PoolModel::new_model(4);
    assert_eq!(pool.size(), 4);
    pool.kill_all();
    assert_eq!(pool.size(), 0);
    pool.kill_all();
    assert_eq!(pool.size(), 0);
}

#[test]
fn pool_search_hands_every_worker_the_fresh_list() {
    let mut pool = PoolModel::new_model(4);
    let board = Board::default();
    let moves = board.generate_moves();
    pool.uci_search(&board, chesscore::pool::Limits::Depth(3), &moves);
    let best = pool.best_move().unwrap();
    assert_eq!(best, moves[0]);
    assert_eq!(pool.nodes(), 0);
    for w in pool.workers.iter() {
        assert_eq!(w.round, 1);
        assert_eq!(w.limits, chesscore::pool::Limits::Depth(3));
        assert_eq!(w.board.get_fen(), board.get_fen());
        assert_eq!(w.board.depth(), 0);
        assert_eq!(w.root_moves.len(), moves.len());
    }
    // A second round with a different list replaces every copy.
    let mut board2 = Board::default();
    assert!(board2.apply_uci_move("e2e4"));
    let moves2 = board2.generate_moves();
    pool.uci_search(&board2, chesscore::pool::Limits::MoveTime(100), &moves2);
    assert_eq!(pool.best_move().unwrap(), moves2[0]);
}

#[test]
fn pool_resize_clamps() {
    let mut pool = PoolModel::new_model(0);
    assert_eq!(pool.size(), 1);
    pool.set_thread_count(8);
    assert_eq!(pool.size(), 8);
    pool.set_thread_count(0);
    assert_eq!(pool.size(), 1);
    pool.set_thread_count(300);
    assert_eq!(pool.size(), 256);
}

#[test]
fn castling_round_trip() {
    let f = "r3k2r/8/8/8/8/8/8/R3K2R w KQkq - 0 1";
    let mut board = Board::new_from_fen(f).unwrap();
    assert!(board.apply_uci_move("e1g1"));
    assert!(board.has_castled(Player::White));
    assert!(!board.can_castle(Player::White, chesscore::types::CastleType::KingSide));
    board.undo_move();
    assert_eq!(board.get_fen(), f);
    assert!(board.apply_uci_move("e1c1"));
    board.undo_move();
    assert_eq!(board.get_fen(), f);
}

#[test]
fn en_passant_round_trip() {
    let mut board = Board::default();
    assert!(board.apply_uci_move("e2e4"));
    assert!(board.apply_uci_move("a7a6"));
    assert!(board.apply_uci_move("e4e5"));
    assert!(board.apply_uci_move("d7d5"));
    assert_eq!(board.ep_square(), 43);
    let before = board.get_fen();
    assert!(board.apply_uci_move("e5d6"));
    assert_eq!(board.count_piece(Player::Black, Piece::P), 7);
    board.undo_move();
    assert_eq!(board.get_fen(), before);
}

#[test]
fn promotion_round_trip() {
    let f = "7k/P7/8/8/8/8/8/7K w - - 0 1";
    let mut board = Board::new_from_fen(f).unwrap();
    let before = board.get_fen();
    assert!(board.apply_uci_move("a7a8q"));
    assert_eq!(board.count_piece(Player::White, Piece::Q), 1);
    assert_eq!(board.count_piece(Player::White, Piece::P), 0);
    board.undo_move();
    assert_eq!(board.get_fen(), before);
}

#[test]
fn perft_small_depths() {
    fn perft(board: &mut Board, depth: u32) -> u64 {
        if depth == 0 {
            return 1;
        }
        let moves = board.generate_moves();
        let mut total = 0;
        for m in moves {
            board.apply_move(m);
            total += perft(board, depth - 1);
            board.undo_move();
        }
        total
    }
    let mut board = Board::default();
    assert_eq!(perft(&mut board, 1), 20);
    assert_eq!(perft(&mut board, 2), 400);
    assert_eq!(perft(&mut board, 3), 8902);
}

#[test]
fn move_families_partition() {
    let mut board = Board::default();
    assert!(board.apply_uci_move("e2e4"));
    assert!(board.apply_uci_move("d7d5"));
    let all = board.generate_moves_of_type(GenTypes::All);
    let captures = board.generate_moves_of_type(GenTypes::Captures);
    let quiets = board.generate_moves_of_type(GenTypes::Quiets);
    assert_eq!(captures.len() + quiets.len(), all.len());
    assert_eq!(captures.len(), 1);
    let start = Board::default();
    assert_eq!(start.generate_moves_of_type(GenTypes::Captures).len(), 0);
}

#[test]
fn fen_reimport_along_a_game() {
    // A deterministic random walk; every position's notation must be
    // accepted back and render identically.
    let mut prng = chesscore::PRNG::init(42);
    let mut board = Board::default();
    for _ in 0..60 {
        if board.checkmate() || board.stalemate() {
            break;
        }
        let f = board.get_fen();
        let again = Board::new_from_fen(&f).expect("a rendered position must parse");
        assert_eq!(again.get_fen(), f);
        assert_eq!(again.zobrist(), board.zobrist());
        let moves = board.generate_moves();
        let pick = (prng.rand() as usize) % moves.len();
        board.apply_move(moves[pick]);
    }
}

#[test]
fn check_and_mate_detection() {
    // The fool's mate.
    let mut board = Board::default();
    assert!(board.apply_uci_move("f2f3"));
    assert!(board.apply_uci_move("e7e5"));
    assert!(board.apply_uci_move("g2g4"));
    assert!(board.apply_uci_move("d8h4"));
    assert!(board.in_check());
    assert!(board.checkmate());
    assert!(!board.stalemate());
}

#[test]
fn counts_and_occupancy_at_start() {
    let board = Board::default();
    assert_eq!(board.count_all_pieces(), 32);
    assert_eq!(board.count_pieces_player(Player::White), 16);
    assert_eq!(board.count_piece(Player::White, Piece::P), 8);
    assert_eq!(board.count_piece(Player::Black, Piece::K), 1);
    assert_eq!(board.get_occupied(), 0xFFFF00000000FFFF);
    assert_eq!(board.get_occupied_player(Player::White), 0x000000000000FFFF);
    assert_eq!(board.piece_bb(Player::White, Piece::P), 0x000000000000FF00);
    assert!(board.is_okay());
}

#[test]
fn clones_share_history_but_not_future() {
    let mut board = Board::default();
    let moves = board.generate_moves();
    board.apply_move(moves[0]);
    let clone = board.shallow_clone();
    assert_eq!(board.moves_played(), clone.moves_played());
    assert_ne!(board.depth(), clone.depth());
    let pclone = board.parallel_clone();
    assert_eq!(board.depth(), pclone.depth());
    assert_eq!(board.get_fen(), clone.get_fen());
}

#[test]
fn null_move_round_trip() {
    let mut board = Board::default();
    let before = board.get_fen();
    let zob = board.zobrist();
    board.apply_null_move();
    assert_eq!(board.turn(), Player::Black);
    assert_ne!(board.zobrist(), zob);
    board.undo_null_move();
    assert_eq!(board.get_fen(), before);
    assert_eq!(board.zobrist(), zob);
}
