//! The per-ply state record.  Every applied move pushes one record,
//! holding the derived facts of the position it creates (castling
//! byte, rule-50 clock, ply, en-passant square, hash, capture, check
//! caches) and a reference-counted link to the record before it, so
//! that a position can be copied in constant time and moves can be
//! taken back by popping.
//!
//! Each record also carries, as ghost data, the placement and side to
//! move of the position it describes; `rec_wf` ties every exec field to
//! that ghost position and each record to its predecessor through the
//! move rules.  Undoing a move leans on exactly this invariant.

use vstd::prelude::*;

use std::sync::Arc;

use crate::bits::bit64;
use crate::locations::placement_wf;
use crate::moves::BitMove;
use crate::rules::{
    apply_placement, captured_code, check_square, ep_cap_sq, is_blocker, is_checker, is_pinner,
    kings_ok, ksq_of, move_ok, new_ep_of,
};
use crate::types::{Piece, Player, code_of, code_piece, relative_rank_of};
use crate::zobrist::zob_of;

verus! {

/// The ghost position a record describes.
pub struct PrePly {
    /// The placement after the record's move.
    pub placement: Seq<u8>,
    /// The side to move in that position.
    pub turn: Player,
}

/// One ply's derived state.
pub struct BoardState {
    /// Castling byte: rights and has-castled bits.
    pub castling: u8,
    /// Half moves since the last capture or pawn move.
    pub rule_50: i16,
    /// Plies since the root of this record chain.
    pub ply: u16,
    /// En-passant target square, 64 when none.
    pub ep_square: u8,
    /// The position hash.
    pub zobrast: u64,
    /// What the move that made this record captured.
    pub captured_piece: Option<Piece>,
    /// Enemy pieces giving check to the side to move.
    pub checkers_bb: u64,
    /// Pieces shielding the white king from a single slider.
    pub blockers_white: u64,
    /// Pieces shielding the black king from a single slider.
    pub blockers_black: u64,
    /// Sliders pinning a white piece to the white king.
    pub pinners_white: u64,
    /// Sliders pinning a black piece to the black king.
    pub pinners_black: u64,
    /// Squares from which a pawn of the side to move would check.
    pub csq_p: u64,
    /// ... a knight.
    pub csq_n: u64,
    /// ... a bishop.
    pub csq_b: u64,
    /// ... a rook.
    pub csq_r: u64,
    /// ... a queen.
    pub csq_q: u64,
    /// ... a king (always empty).
    pub csq_k: u64,
    /// The move that produced this record; null for a root or a null move.
    pub prev_move: BitMove,
    /// The record before this one.
    pub prev: Option<Arc<BoardState>>,
    /// The position this record describes.
    pub pre: Ghost<PrePly>,
}

/// The check caches say exactly what they promise about the record's
/// position.
pub open spec fn caches_ok(r: BoardState) -> bool {
    let p = r.pre@.placement;
    let turn = r.pre@.turn;
    (forall|t: u8|
        t < 64 ==> (#[trigger] bit64(r.checkers_bb, t) <==> is_checker(
            p,
            turn.flip(),
            t,
            ksq_of(p, turn),
        ))) && (forall|x: u8|
        x < 64 ==> (#[trigger] bit64(r.blockers_white, x) <==> is_blocker(p, Player::White, x)))
        && (forall|x: u8|
        x < 64 ==> (#[trigger] bit64(r.blockers_black, x) <==> is_blocker(p, Player::Black, x)))
        && (forall|s: u8|
        s < 64 ==> (#[trigger] bit64(r.pinners_white, s) <==> is_pinner(p, Player::White, s))) && (
    forall|s: u8|
        s < 64 ==> (#[trigger] bit64(r.pinners_black, s) <==> is_pinner(p, Player::Black, s))) && (
    forall|t: u8|
        t < 64 ==> (#[trigger] bit64(r.csq_p, t) <==> check_square(p, turn, Piece::P, t))) && (
    forall|t: u8|
        t < 64 ==> (#[trigger] bit64(r.csq_n, t) <==> check_square(p, turn, Piece::N, t))) && (
    forall|t: u8|
        t < 64 ==> (#[trigger] bit64(r.csq_b, t) <==> check_square(p, turn, Piece::B, t))) && (
    forall|t: u8|
        t < 64 ==> (#[trigger] bit64(r.csq_r, t) <==> check_square(p, turn, Piece::R, t))) && (
    forall|t: u8|
        t < 64 ==> (#[trigger] bit64(r.csq_q, t) <==> check_square(p, turn, Piece::Q, t))) && (
    forall|t: u8| t < 64 ==> !(#[trigger] bit64(r.csq_k, t)))
}

/// The en-passant square, when set, sits on the attacker's sixth rank,
/// is empty, and stands just behind an enemy pawn.
pub open spec fn ep_sane(p: Seq<u8>, turn: Player, ep: u8) -> bool {
    ep == 64 || (ep < 64 && relative_rank_of(turn, ep) == 5 && p[ep as int] == 0 && 8 <= ep_cap_sq(
        turn,
        ep,
    ) < 56 && p[ep_cap_sq(turn, ep) as int] == code_of(turn.flip(), Piece::P))
}

/// The record's en-passant square is sane for its position.
pub open spec fn ep_ok(r: BoardState) -> bool {
    ep_sane(r.pre@.placement, r.pre@.turn, r.ep_square)
}

/// The stored hash is the hash of the record's position, recomputed
/// from scratch.
pub open spec fn zob_ok(r: BoardState) -> bool {
    r.zobrast == zob_of(r.pre@.placement, r.pre@.turn, r.castling, r.ep_square)
}

/// Well-formedness of a record and of the whole chain behind it.
pub open spec fn rec_wf(r: BoardState) -> bool
    decreases r,
{
    placement_wf(r.pre@.placement) && kings_ok(r.pre@.placement) && ep_ok(r) && zob_ok(r)
        && caches_ok(r) && r.rule_50 >= 0 && match r.prev {
        Option::None => r.prev_move.data == 0,
        Option::Some(pr) => rec_wf(*pr) && if r.prev_move.data != 0 {
            let us = pr.pre@.turn;
            r.pre@.turn == us.flip() && move_ok(pr.pre@.placement, us, r.prev_move, pr.ep_square)
                && r.pre@.placement == apply_placement(pr.pre@.placement, us, r.prev_move)
                && r.captured_piece == (if captured_code(pr.pre@.placement, us, r.prev_move) == 0 {
                Option::<Piece>::None
            } else {
                Option::Some(code_piece(captured_code(pr.pre@.placement, us, r.prev_move)))
            }) && r.ep_square == new_ep_of(pr.pre@.placement, us, r.prev_move)
        } else {
            r.pre@.turn == pr.pre@.turn.flip() && r.pre@.placement == pr.pre@.placement
                && r.ep_square == 64
        },
    }
}

} // verus!
