//! The properties the board promises, stated on their own.  Each law is
//! proved from the invariant `wf` and from the contracts of `apply_move`
//! and `undo_move`; the quantified statements hold of every well-formed
//! board, not of chosen examples.

use vstd::prelude::*;

use crate::bits::bit64;
use crate::board::Board;
use crate::fen::fen_of;
use crate::moves::BitMove;
use crate::rules::{apply_placement, count_code, move_ok};
use crate::types::{Piece, Player, code_of};
use crate::zobrist::zob_of;

verus! {

/// Occupancy partition: on every well-formed board the two sides'
/// occupancy masks are disjoint, and their union is exactly the mask of
/// occupied squares.  `apply_move` and `undo_move` keep `wf`, so this
/// holds after every application and retraction.
pub proof fn lemma_occupancy_partition(b: &Board)
    requires
        b.wf(),
    ensures
        forall|s: u8| s < 64 ==> !(#[trigger] bit64(b.sq.occ_w, s) && bit64(b.sq.occ_b, s)),
        forall|s: u8|
            s < 64 ==> (#[trigger] bit64(b.sq.occ_all, s) <==> (bit64(b.sq.occ_w, s) || bit64(
                b.sq.occ_b,
                s,
            ))),
{
}

/// King invariant: every well-formed board holds exactly one king per
/// side.
pub proof fn lemma_one_king_per_side(b: &Board)
    requires
        b.wf(),
    ensures
        count_code(b.placement(), code_of(Player::White, Piece::K), 64) == 1,
        count_code(b.placement(), code_of(Player::Black, Piece::K), 64) == 1,
{
}

/// Incremental hash against recomputed hash: the hash each record
/// carries — maintained key by key in `apply_move` — equals the hash of
/// the position recomputed from scratch, after any sequence of
/// applications.
pub proof fn lemma_hash_matches_recomputed(b: &Board)
    requires
        b.wf(),
    ensures
        b.state.zobrast == zob_of(
            b.placement(),
            b.turn,
            b.state.castling,
            b.state.ep_square,
        ),
{
}

/// Round trip: applying a move and then taking it back restores the
/// position exactly.  `b0` is any well-formed board, `b1` any board
/// related to it as `apply_move`'s contract promises, and `b2` any board
/// related to `b1` as `undo_move`'s contract promises; then `b2` shows
/// the same placement, the same hash, and the same notation string as
/// `b0`.
pub proof fn lemma_apply_undo_round_trip(b0: &Board, b1: &Board, b2: &Board, m: BitMove)
    requires
        b0.wf(),
        move_ok(b0.placement(), b0.turn, m, b0.state.ep_square),
        b1.placement() == apply_placement(b0.placement(), b0.turn, m),
        b1.turn == b0.turn.flip(),
        b1.half_moves == b0.half_moves + 1,
        b1.state.prev is Some,
        *b1.state.prev->Some_0 == *b0.state,
        b2.placement() == b1.state.prev->Some_0.pre@.placement,
        *b2.state == *b1.state.prev->Some_0,
        b2.turn == b1.turn.flip(),
        b2.half_moves == b1.half_moves - 1,
    ensures
        b2.placement() == b0.placement(),
        b2.turn == b0.turn,
        b2.half_moves == b0.half_moves,
        b2.state.zobrast == b0.state.zobrast,
        fen_of(
            b2.placement(),
            b2.turn,
            b2.state.castling,
            b2.state.ep_square,
            b2.state.rule_50,
            b2.half_moves,
        ) == fen_of(
            b0.placement(),
            b0.turn,
            b0.state.castling,
            b0.state.ep_square,
            b0.state.rule_50,
            b0.half_moves,
        ),
{
}

} // verus!
