//! Small unit checks: the generator's determinism, move packing and
//! notation, and single move-test queries.

use chesscore::PRNG;
use chesscore::board::Board;
use chesscore::moves::BitMove;
use chesscore::types::{Piece, Player};

#[test]
fn prng_is_deterministic() {
    let mut a = PRNG::init(7);
    let mut b = PRNG::init(7);
    for _ in 0..16 {
        assert_eq!(a.rand(), b.rand());
    }
    let mut c = PRNG::init(8);
    assert_ne!(a.rand(), c.rand());
}

#[test]
fn prng_sparse_and_singular() {
    let mut a = PRNG::init(99);
    let mut b = PRNG::init(99);
    let x = b.rand() & b.rand() & b.rand();
    assert_eq!(a.sparse_rand(), x);
    let mut d = PRNG::init(5);
    let one = d.singular_bit();
    assert_eq!(one.count_ones(), 1);
    let mut e = PRNG::init(5);
    assert_eq!(e.singular_bit(), one);
}

#[test]
fn move_packing_round_trips() {
    let m = BitMove::make(12, 28, 0, 0);
    assert_eq!(m.get_src(), 12);
    assert_eq!(m.get_dest(), 28);
    assert!(!m.is_promo());
    assert_eq!(m.stringify(), "e2e4");
    let p = BitMove::make(48, 56, 1, 3);
    assert!(p.is_promo());
    assert_eq!(p.promo_piece(), Piece::Q);
    assert_eq!(p.stringify(), "a7a8q");
    let n = BitMove::null();
    assert!(n.is_null());
}

#[test]
fn gives_check_sees_direct_checks() {
    // A rook slide to e-file checks the black king on e8.
    let board = Board::new_from_fen("4k3/8/8/8/8/8/8/R3K3 w Q - 0 1").unwrap();
    let moves = board.generate_moves();
    let mut found_check = false;
    for m in moves {
        if m.stringify() == "a1a8" {
            assert!(board.gives_check(m));
            found_check = true;
        } else if m.stringify() == "a1a2" {
            assert!(!board.gives_check(m));
        }
    }
    assert!(found_check);
}

#[test]
fn legal_move_respects_pins() {
    // The white knight on d2 is pinned by the rook on d8.
    let board = Board::new_from_fen("3rk3/8/8/8/8/8/3N4/3K4 w - - 0 1").unwrap();
    let moves = board.generate_moves();
    for m in &moves {
        assert_ne!(m.get_src(), 11, "a pinned knight must not move");
    }
    assert!(!moves.is_empty());
}

#[test]
fn moved_and_captured_piece() {
    let mut board = Board::default();
    assert!(board.apply_uci_move("e2e4"));
    assert!(board.apply_uci_move("d7d5"));
    let moves = board.generate_moves();
    for m in moves {
        if m.stringify() == "e4d5" {
            assert_eq!(board.moved_piece(m), Piece::P);
            assert_eq!(board.captured_piece(m), Some(Piece::P));
            board.apply_move(m);
            assert_eq!(board.piece_captured_last_turn(), Some(Piece::P));
            return;
        }
    }
    panic!("the capture e4d5 was not generated");
}

#[test]
fn pretty_string_shows_the_start() {
    let board = Board::default();
    let s = board.pretty_string();
    assert_eq!(s.lines().count(), 8);
    assert!(s.starts_with("r n b q k b n r"));
    assert!(s.contains("P P P P P P P P"));
}

#[test]
fn king_square_and_ep() {
    let board = Board::default();
    assert_eq!(board.king_sq(Player::White), 4);
    assert_eq!(board.king_sq(Player::Black), 60);
    assert_eq!(board.ep_square(), 64);
    assert_eq!(board.rule_50(), 0);
    assert_eq!(board.ply(), 0);
    assert!(board.last_move().is_none());
    assert!(board.get_arc_strong_count() >= 1);
}

#[test]
fn quiet_checks_family() {
    let board = Board::new_from_fen("4k3/8/8/8/8/8/8/R3K3 w Q - 0 1").unwrap();
    let qc = board.generate_moves_of_type(chesscore::types::GenTypes::QuietChecks);
    assert!(qc.iter().any(|m| m.stringify() == "a1a8"));
    let pseudo = board.generate_pseudolegal_moves_of_type(chesscore::types::GenTypes::All);
    assert!(pseudo.len() >= board.generate_moves().len());
}

#[test]
fn attack_tables_from_squares() {
    let board = Board::default();
    let helper = board.magic_helper();
    // A knight in a corner reaches two squares.
    assert_eq!(helper.knight_moves(0).count_ones(), 2);
    // A king in the middle reaches eight.
    assert_eq!(helper.king_moves(27).count_ones(), 8);
    // A rook on an empty board reaches fourteen squares.
    assert_eq!(helper.rook_moves(0, 27).count_ones(), 14);
    assert_eq!(helper.distance_of_sqs(0, 63), 7);
    assert!(helper.aligned(0, 9, 18));
    let occupied = board.get_occupied();
    let attackers = board.attackers_to(20, occupied);
    // e3 is guarded by the d2 and f2 pawns at the start.
    assert_eq!(attackers.count_ones(), 2);
}
