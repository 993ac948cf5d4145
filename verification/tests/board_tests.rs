//! Long random games driving the whole state machine: moves are picked
//! at random from the generator, applied, and later taken back, and the
//! notation string and hash must return to their earlier values.

use chesscore::board::Board;

#[test]
fn random_move_apply() {
    let mut board = Board::default();
    let mut ply = 1000;
    while ply > 0 && !board.checkmate() && !board.stalemate() {
        let moves = board.generate_moves();
        let picked_move = moves[(rand::random::<u64>() as usize) % moves.len()];
        board.apply_move(picked_move);
        ply -= 1;
    }
}

#[test]
fn fen_equality() {
    let mut board = Board::default();
    let mut ply = 1000;
    let mut fen_stack = Vec::new();
    while ply > 0 && !board.checkmate() && !board.stalemate() {
        fen_stack.push(board.get_fen());
        let moves = board.generate_moves();
        let picked_move = moves[(rand::random::<u64>() as usize) % moves.len()];
        board.apply_move(picked_move);
        ply -= 1;
    }

    while !fen_stack.is_empty() {
        board.undo_move();
        assert_eq!(board.get_fen(), fen_stack.pop().unwrap());
    }
}

#[test]
fn zob_equality() {
    let mut board = Board::default();
    let mut ply = 1000;
    let mut zobrist_stack = Vec::new();
    while ply > 0 && !board.checkmate() && !board.stalemate() {
        zobrist_stack.push(board.zobrist());
        let moves = board.generate_moves();
        let picked_move = moves[(rand::random::<u64>() as usize) % moves.len()];
        board.apply_move(picked_move);
        ply -= 1;
    }

    while !zobrist_stack.is_empty() {
        board.undo_move();
        assert_eq!(board.zobrist(), zobrist_stack.pop().unwrap());
    }
}
