//! Applying and taking back moves.  `apply_move` pushes one state
//! record, updates every mask, count and cache, and maintains the hash
//! incrementally; `undo_move` reverses the placement and pops back to
//! the previous record.

use vstd::prelude::*;

use std::sync::Arc;

use crate::board::{Board, compute_check_info};
use crate::castling::{castling_after, set_castled, update_rights};
use crate::moves::{BitMove, MoveType, mv_dst, mv_promo, mv_src, mv_type};
use crate::rules::{apply_placement, captured_code, move_ok, new_ep_of};
use crate::state::BoardState;
use crate::types::{Piece, Player, code_of, code_piece};
use crate::zobrist::{
    zkey_of, zob_castle, zob_castle_of, zob_contrib, zob_contrib_of, zob_ep, zob_ep_of, zob_of,
    zob_side, zob_squares,
};

verus! {

/// The rule-50 clock after a move: reset by captures and pawn moves.
pub open spec fn rule50_after(p: Seq<u8>, us: Player, m: BitMove, old50: i16) -> i16 {
    if captured_code(p, us, m) != 0 || code_piece(p[mv_src(m) as int]) == Piece::P {
        0i16
    } else {
        (old50 + 1) as i16
    }
}

/// The captured piece a move records.
pub open spec fn captured_of(p: Seq<u8>, us: Player, m: BitMove) -> Option<Piece> {
    if captured_code(p, us, m) == 0 {
        Option::<Piece>::None
    } else {
        Option::Some(code_piece(captured_code(p, us, m)))
    }
}


/// Folding a zero key in changes nothing: a quiet move's hash chain
/// also matches the capturing shape.
proof fn lemma_xor_zero(base: u64, a: u64, b: u64)
    by (bit_vector)
    ensures
        ((base ^ a) ^ b) == ((base ^ 0u64) ^ a) ^ b,
{
}

/// Hash update for a move that clears `from` and writes `nc` onto `to`,
/// folding out whatever stood on `to`.
proof fn lemma_hash_two(
    p0: Seq<u8>,
    from: u8,
    to: u8,
    nc: u8,
    us: Player,
    old_ep: u8,
    new_ep: u8,
    old_cast: u8,
    new_cast: u8,
    old_zob: u64,
    z: u64,
)
    requires
        p0.len() == 64,
        from < 64,
        to < 64,
        from != to,
        old_zob == zob_of(p0, us, old_cast, old_ep),
        z == ((((old_zob ^ crate::zobrist::zkey(792)) ^ zob_ep(old_ep) ^ zob_ep(new_ep))
            ^ zob_castle(old_cast) ^ zob_castle(new_cast)) ^ zob_contrib(p0[to as int], to))
            ^ zob_contrib(p0[from as int], from) ^ zob_contrib(nc, to),
    ensures
        z == zob_of(p0.update(from as int, 0).update(to as int, nc), us.flip(), new_cast, new_ep),
{
    let p1 = p0.update(from as int, 0);
    let q = p1.update(to as int, nc);
    crate::zobrist::lemma_zob_update(p0, from as int, 0, 64);
    crate::zobrist::lemma_zob_update(p1, to as int, nc, 64);
    let zs0 = zob_squares(p0, 64);
    let zs1 = zob_squares(q, 64);
    let e0 = zob_ep(old_ep);
    let e1 = zob_ep(new_ep);
    let c0 = zob_castle(old_cast);
    let c1 = zob_castle(new_cast);
    let s0 = zob_side(us);
    let s1 = zob_side(us.flip());
    let k = crate::zobrist::zkey(792);
    let a1 = zob_contrib(p0[to as int], to);
    let a2 = zob_contrib(p0[from as int], from);
    let a3 = zob_contrib(nc, to);
    assert(p1[to as int] == p0[to as int]);
    assert(zs1 == ((zs0 ^ a2 ^ 0) ^ a1 ^ a3));
    assert(z == zs1 ^ e1 ^ c1 ^ s1) by (bit_vector)
        requires
            zs1 == ((zs0 ^ a2 ^ 0) ^ a1 ^ a3),
            z == ((((old_zob ^ k) ^ e0 ^ e1) ^ c0 ^ c1) ^ a1) ^ a2 ^ a3,
            old_zob == zs0 ^ e0 ^ c0 ^ s0,
            (s0 == 0 ==> s1 == k) && (s0 == k ==> s1 == 0),
            s0 == 0 || s0 == k,
    ;
}

/// Hash update for an en-passant capture: clears the captured pawn's
/// square and `from`, writes the pawn onto `to`.
proof fn lemma_hash_ep(
    p0: Seq<u8>,
    capsq: u8,
    from: u8,
    to: u8,
    nc: u8,
    us: Player,
    old_ep: u8,
    new_ep: u8,
    old_cast: u8,
    new_cast: u8,
    old_zob: u64,
    z: u64,
)
    requires
        p0.len() == 64,
        from < 64,
        to < 64,
        capsq < 64,
        from != to,
        capsq != from,
        capsq != to,
        p0[to as int] == 0,
        old_zob == zob_of(p0, us, old_cast, old_ep),
        z == ((((old_zob ^ crate::zobrist::zkey(792)) ^ zob_ep(old_ep) ^ zob_ep(new_ep))
            ^ zob_castle(old_cast) ^ zob_castle(new_cast)) ^ zob_contrib(p0[capsq as int], capsq))
            ^ zob_contrib(p0[from as int], from) ^ zob_contrib(nc, to),
    ensures
        z == zob_of(
            p0.update(capsq as int, 0).update(from as int, 0).update(to as int, nc),
            us.flip(),
            new_cast,
            new_ep,
        ),
{
    let p1 = p0.update(capsq as int, 0);
    let p2 = p1.update(from as int, 0);
    let q = p2.update(to as int, nc);
    crate::zobrist::lemma_zob_update(p0, capsq as int, 0, 64);
    crate::zobrist::lemma_zob_update(p1, from as int, 0, 64);
    crate::zobrist::lemma_zob_update(p2, to as int, nc, 64);
    let zs0 = zob_squares(p0, 64);
    let zs1 = zob_squares(q, 64);
    let e0 = zob_ep(old_ep);
    let e1 = zob_ep(new_ep);
    let c0 = zob_castle(old_cast);
    let c1 = zob_castle(new_cast);
    let s0 = zob_side(us);
    let s1 = zob_side(us.flip());
    let k = crate::zobrist::zkey(792);
    let a1 = zob_contrib(p0[capsq as int], capsq);
    let a2 = zob_contrib(p0[from as int], from);
    let a3 = zob_contrib(nc, to);
    assert(zs1 == (((zs0 ^ a1 ^ 0) ^ a2 ^ 0) ^ 0 ^ a3));
    assert(z == zs1 ^ e1 ^ c1 ^ s1) by (bit_vector)
        requires
            zs1 == (((zs0 ^ a1 ^ 0) ^ a2 ^ 0) ^ 0 ^ a3),
            z == ((((old_zob ^ k) ^ e0 ^ e1) ^ c0 ^ c1) ^ a1) ^ a2 ^ a3,
            old_zob == zs0 ^ e0 ^ c0 ^ s0,
            (s0 == 0 ==> s1 == k) && (s0 == k ==> s1 == 0),
            s0 == 0 || s0 == k,
    ;
}

/// Hash update for a castle: king and rook leave their squares and land
/// on theirs.
proof fn lemma_hash_castle(
    p0: Seq<u8>,
    from: u8,
    to: u8,
    kd: u8,
    rd: u8,
    us: Player,
    old_ep: u8,
    new_ep: u8,
    old_cast: u8,
    new_cast: u8,
    old_zob: u64,
    z: u64,
)
    requires
        p0.len() == 64,
        from < 64,
        to < 64,
        kd < 64,
        rd < 64,
        from != to,
        kd != from,
        kd != to,
        rd != from,
        rd != to,
        rd != kd,
        p0[kd as int] == 0,
        p0[rd as int] == 0,
        old_zob == zob_of(p0, us, old_cast, old_ep),
        z == ((((old_zob ^ crate::zobrist::zkey(792)) ^ zob_ep(old_ep) ^ zob_ep(new_ep))
            ^ zob_castle(old_cast) ^ zob_castle(new_cast)) ^ zob_contrib(p0[from as int], from)
            ^ zob_contrib(code_of(us, Piece::K), kd)) ^ zob_contrib(p0[to as int], to)
            ^ zob_contrib(code_of(us, Piece::R), rd),
    ensures
        z == zob_of(
            p0.update(from as int, 0).update(to as int, 0).update(
                kd as int,
                code_of(us, Piece::K),
            ).update(rd as int, code_of(us, Piece::R)),
            us.flip(),
            new_cast,
            new_ep,
        ),
{
    let p1 = p0.update(from as int, 0);
    let p2 = p1.update(to as int, 0);
    let p3 = p2.update(kd as int, code_of(us, Piece::K));
    let q = p3.update(rd as int, code_of(us, Piece::R));
    crate::zobrist::lemma_zob_update(p0, from as int, 0, 64);
    crate::zobrist::lemma_zob_update(p1, to as int, 0, 64);
    crate::zobrist::lemma_zob_update(p2, kd as int, code_of(us, Piece::K), 64);
    crate::zobrist::lemma_zob_update(p3, rd as int, code_of(us, Piece::R), 64);
    let zs0 = zob_squares(p0, 64);
    let zs1 = zob_squares(q, 64);
    let e0 = zob_ep(old_ep);
    let e1 = zob_ep(new_ep);
    let c0 = zob_castle(old_cast);
    let c1 = zob_castle(new_cast);
    let s0 = zob_side(us);
    let s1 = zob_side(us.flip());
    let k = crate::zobrist::zkey(792);
    let a1 = zob_contrib(p0[from as int], from);
    let a2 = zob_contrib(code_of(us, Piece::K), kd);
    let a3 = zob_contrib(p0[to as int], to);
    let a4 = zob_contrib(code_of(us, Piece::R), rd);
    assert(zs1 == ((((zs0 ^ a1 ^ 0) ^ a3 ^ 0) ^ 0 ^ a2) ^ 0 ^ a4));
    assert(z == zs1 ^ e1 ^ c1 ^ s1) by (bit_vector)
        requires
            zs1 == ((((zs0 ^ a1 ^ 0) ^ a3 ^ 0) ^ 0 ^ a2) ^ 0 ^ a4),
            z == ((((old_zob ^ k) ^ e0 ^ e1) ^ c0 ^ c1) ^ a1 ^ a2) ^ a3 ^ a4,
            old_zob == zs0 ^ e0 ^ c0 ^ s0,
            (s0 == 0 ==> s1 == k) && (s0 == k ==> s1 == 0),
            s0 == 0 || s0 == k,
    ;
}


/// Moves the pieces of one move on `sq` and folds their keys into the
/// running hash `z`, which must already account for the side, en
/// passant and castling keys.
#[verifier::rlimit(100)]
fn move_pieces(
    sq: &mut crate::squares::Squares,
    bit_move: BitMove,
    us: Player,
    cap_code: u8,
    z_in: u64,
    old_ep: u8,
    new_ep: u8,
    old_cast: u8,
    new_cast: u8,
    old_zob: u64,
) -> (z2: u64)
    requires
        old(sq).cong(),
        move_ok(old(sq)@, us, bit_move, old_ep),
        cap_code == captured_code(old(sq)@, us, bit_move),
        old_zob == zob_of(old(sq)@, us, old_cast, old_ep),
        z_in == (((old_zob ^ crate::zobrist::zkey(792)) ^ zob_ep(old_ep) ^ zob_ep(new_ep))
            ^ zob_castle(old_cast)) ^ zob_castle(new_cast),
    ensures
        final(sq).cong(),
        final(sq)@ == apply_placement(old(sq)@, us, bit_move),
        z2 == zob_of(apply_placement(old(sq)@, us, bit_move), us.flip(), new_cast, new_ep),
{
    proof {
        crate::rules::lemma_mv_bounds(bit_move);
    }
    let them = us.other_player();
    let from = bit_move.get_src();
    let to = bit_move.get_dest();
    let mt = bit_move.move_type();
    let mover_code = sq.code_at(from);
    let mover = crate::types::decode_piece(mover_code);
    let mut z = z_in;
    let ghost p0 = old(sq)@;

        if mt == MoveType::Castle {
            let kd = crate::types::relative_square(us, if to > from {
                6
            } else {
                2
            });
            let rd = crate::types::relative_square(us, if to > from {
                5
            } else {
                3
            });
            sq.take(from);
            sq.take(to);
            sq.put(kd, us, Piece::K);
            sq.put(rd, us, Piece::R);
            let rook_code = crate::types::make_code(us, Piece::R);
            z = z ^ zob_contrib_of(mover_code, from) ^ zob_contrib_of(mover_code, kd);
            z = z ^ zob_contrib_of(rook_code, to) ^ zob_contrib_of(rook_code, rd);
            proof {
                assert(sq@ =~= apply_placement(p0, us, bit_move));
                assert(mover_code == code_of(us, Piece::K) && p0[to as int] == code_of(
                    us,
                    Piece::R,
                ));
                lemma_hash_castle(
                    p0,
                    from,
                    to,
                    kd,
                    rd,
                    us,
                    old_ep,
                    new_ep,
                    old_cast,
                    new_cast,
                    old_zob,
                    z,
                );
            }
        } else if mt == MoveType::EnPassant {
            let capsq = if to >= 8 && us == Player::White {
                to - 8
            } else {
                to + 8
            };
            sq.take(capsq);
            sq.take(from);
            sq.put(to, us, Piece::P);
            z = z ^ zob_contrib_of(cap_code, capsq);
            z = z ^ zob_contrib_of(mover_code, from) ^ zob_contrib_of(mover_code, to);
            proof {
                assert(sq@ =~= apply_placement(p0, us, bit_move));
                assert(p0[capsq as int] == cap_code && p0[from as int] == code_of(us, Piece::P)
                    && mover_code == code_of(us, Piece::P));
                lemma_hash_ep(
                    p0,
                    capsq,
                    from,
                    to,
                    code_of(us, Piece::P),
                    us,
                    old_ep,
                    new_ep,
                    old_cast,
                    new_cast,
                    old_zob,
                    z,
                );
            }
        } else if mt == MoveType::Promotion {
            if cap_code != 0 {
                sq.take(to);
                z = z ^ zob_contrib_of(cap_code, to);
            }
            sq.take(from);
            let promo = bit_move.promo_piece();
            sq.put(to, us, promo);
            let promo_code = crate::types::make_code(us, promo);
            z = z ^ zob_contrib_of(mover_code, from) ^ zob_contrib_of(promo_code, to);
            proof {
                assert(sq@ =~= apply_placement(p0, us, bit_move));
                let nc = code_of(us, mv_promo(bit_move));
                if cap_code != 0 {
                    assert(z == ((((old_zob ^ crate::zobrist::zkey(792)) ^ zob_ep(old_ep)
                        ^ zob_ep(new_ep)) ^ zob_castle(old_cast) ^ zob_castle(new_cast))
                        ^ zob_contrib(p0[to as int], to)) ^ zob_contrib(p0[from as int], from)
                        ^ zob_contrib(nc, to));
                } else {
                    assert(zob_contrib(p0[to as int], to) == 0);
                    lemma_xor_zero(
                        ((old_zob ^ crate::zobrist::zkey(792)) ^ zob_ep(old_ep) ^ zob_ep(new_ep))
                            ^ zob_castle(old_cast) ^ zob_castle(new_cast),
                        zob_contrib(p0[from as int], from),
                        zob_contrib(nc, to),
                    );
                }
                lemma_hash_two(
                    p0,
                    from,
                    to,
                    nc,
                    us,
                    old_ep,
                    new_ep,
                    old_cast,
                    new_cast,
                    old_zob,
                    z,
                );
            }
        } else {
            if cap_code != 0 {
                sq.take(to);
                z = z ^ zob_contrib_of(cap_code, to);
            }
            sq.take(from);
            sq.put(to, us, mover);
            z = z ^ zob_contrib_of(mover_code, from) ^ zob_contrib_of(mover_code, to);
            proof {
                assert(sq@ =~= apply_placement(p0, us, bit_move));
                let nc = p0[from as int];
                if cap_code != 0 {
                    assert(z == ((((old_zob ^ crate::zobrist::zkey(792)) ^ zob_ep(old_ep)
                        ^ zob_ep(new_ep)) ^ zob_castle(old_cast) ^ zob_castle(new_cast))
                        ^ zob_contrib(p0[to as int], to)) ^ zob_contrib(p0[from as int], from)
                        ^ zob_contrib(nc, to));
                } else {
                    assert(zob_contrib(p0[to as int], to) == 0);
                    lemma_xor_zero(
                        ((old_zob ^ crate::zobrist::zkey(792)) ^ zob_ep(old_ep) ^ zob_ep(new_ep))
                            ^ zob_castle(old_cast) ^ zob_castle(new_cast),
                        zob_contrib(p0[from as int], from),
                        zob_contrib(nc, to),
                    );
                }
                lemma_hash_two(
                    p0,
                    from,
                    to,
                    nc,
                    us,
                    old_ep,
                    new_ep,
                    old_cast,
                    new_cast,
                    old_zob,
                    z,
                );
            }
        }
    z
}

impl Board {
    /// Applies a move.  The move must be structurally legal for the
    /// current position — taken from the move generator, or checked
    /// with `legal_move` — and the counters must not be saturated.
    ///
    /// One new state record is pushed; the previous record survives
    /// unchanged behind it, so the move can be taken back.
    #[verifier::rlimit(100)]
    pub fn apply_move(&mut self, bit_move: BitMove)
        requires
            old(self).wf(),
            move_ok(
                old(self).placement(),
                old(self).turn,
                bit_move,
                old(self).state.ep_square,
            ),
            old(self).half_moves < 65535,
            old(self).depth < 65535,
            old(self).state.ply < 65535,
            old(self).state.rule_50 < 32767,
        ensures
            final(self).wf(),
            final(self).placement() == apply_placement(
                old(self).placement(),
                old(self).turn,
                bit_move,
            ),
            final(self).turn == old(self).turn.flip(),
            final(self).half_moves == old(self).half_moves + 1,
            final(self).depth == old(self).depth + 1,
            final(self).state.prev is Some,
            *final(self).state.prev->Some_0 == *old(self).state,
            final(self).state.prev_move == bit_move,
            final(self).state.ply == old(self).state.ply + 1,
            final(self).state.ep_square == new_ep_of(
                old(self).placement(),
                old(self).turn,
                bit_move,
            ),
            final(self).state.castling == castling_after(
                old(self).state.castling,
                old(self).turn,
                mv_type(bit_move) == MoveType::Castle,
                mv_src(bit_move),
                mv_dst(bit_move),
            ),
            final(self).state.rule_50 == rule50_after(
                old(self).placement(),
                old(self).turn,
                bit_move,
                old(self).state.rule_50,
            ),
            final(self).state.captured_piece == captured_of(
                old(self).placement(),
                old(self).turn,
                bit_move,
            ),
            final(self).state.zobrast == zob_of(
                final(self).placement(),
                final(self).turn,
                final(self).state.castling,
                final(self).state.ep_square,
            ),
    {
        proof {
            crate::rules::lemma_mv_bounds(bit_move);
        }
        let us = self.turn;
        let them = us.other_player();
        let from = bit_move.get_src();
        let to = bit_move.get_dest();
        let mt = bit_move.move_type();
        let mover_code = self.sq.code_at(from);
        let mover = crate::types::decode_piece(mover_code);

        // What this move captures.
        let cap_code: u8 = if mt == MoveType::Castle {
            0
        } else if mt == MoveType::EnPassant {
            crate::types::make_code(them, Piece::P)
        } else {
            self.sq.code_at(to)
        };

        // Castling byte.
        let old_cast = self.state.castling;
        let cast1 = if mt == MoveType::Castle {
            set_castled(old_cast, us)
        } else {
            old_cast
        };
        let new_cast = update_rights(cast1, from, to);

        // Rule-50 clock.
        let new_rule50: i16 = if cap_code != 0 || mover == Piece::P {
            0
        } else {
            self.state.rule_50 + 1
        };

        // En-passant square left behind.
        let new_ep: u8 = if mt == MoveType::Normal && mover == Piece::P && (to == from + 16 || (
        from >= 16 && to == from - 16)) {
            if to > from {
                from + 8
            } else {
                to + 8
            }
        } else {
            64
        };
        proof {
            assert(new_ep == new_ep_of(old(self).placement(), us, bit_move));
        }

        let old_ep = self.state.ep_square;
        let old_zob = self.state.zobrast;

        // Toggle the side key, swap the en-passant and castling keys.
        let mut z = old_zob ^ zkey_of(792);
        z = z ^ zob_ep_of(old_ep) ^ zob_ep_of(new_ep);
        z = z ^ zob_castle_of(old_cast) ^ zob_castle_of(new_cast);

        let ghost p0 = old(self).placement();

        let z = move_pieces(
            &mut self.sq,
            bit_move,
            us,
            cap_code,
            z,
            old_ep,
            new_ep,
            old_cast,
            new_cast,
            old_zob,
        );

        proof {
            assert(bit_move.data == 0 ==> mv_src(bit_move) == mv_dst(bit_move)) by {
                let d = bit_move.data;
                assert(d == 0 ==> ((d >> 6) & 0x3f) == (d & 0x3f)) by (bit_vector);
            }
        }
        self.push_state(bit_move, new_cast, new_rule50, new_ep, z, cap_code, Ghost(p0));
    }

    /// Builds and installs the new state record once the pieces have
    /// moved, flipping the side to move and stepping the counters.
    #[verifier::rlimit(100)]
    fn push_state(
        &mut self,
        bit_move: BitMove,
        new_cast: u8,
        new_rule50: i16,
        new_ep: u8,
        z: u64,
        cap_code: u8,
        Ghost(p0): Ghost<Seq<u8>>,
    )
        requires
            old(self).sq.cong(),
            old(self).state.pre@.placement == p0,
            old(self).state.pre@.turn == old(self).turn,
            crate::state::rec_wf(*old(self).state),
            move_ok(p0, old(self).turn, bit_move, old(self).state.ep_square),
            old(self).sq@ == apply_placement(p0, old(self).turn, bit_move),
            bit_move.data != 0,
            z == zob_of(
                apply_placement(p0, old(self).turn, bit_move),
                old(self).turn.flip(),
                new_cast,
                new_ep,
            ),
            new_ep == new_ep_of(p0, old(self).turn, bit_move),
            new_rule50 == rule50_after(p0, old(self).turn, bit_move, old(self).state.rule_50),
            cap_code == captured_code(p0, old(self).turn, bit_move),
            old(self).half_moves < 65535,
            old(self).depth < 65535,
            old(self).state.ply < 65535,
            old(self).state.rule_50 < 32767,
        ensures
            final(self).wf(),
            final(self).sq == old(self).sq,
            final(self).placement() == apply_placement(p0, old(self).turn, bit_move),
            final(self).turn == old(self).turn.flip(),
            final(self).half_moves == old(self).half_moves + 1,
            final(self).depth == old(self).depth + 1,
            final(self).state.prev is Some,
            *final(self).state.prev->Some_0 == *old(self).state,
            final(self).state.prev_move == bit_move,
            final(self).state.ply == old(self).state.ply + 1,
            final(self).state.ep_square == new_ep,
            final(self).state.castling == new_cast,
            final(self).state.rule_50 == new_rule50,
            final(self).state.captured_piece == captured_of(p0, old(self).turn, bit_move),
            final(self).state.zobrast == z,
    {
        let us = self.turn;
        let them = us.other_player();
        proof {
            crate::rules::lemma_apply_wf(p0, us, bit_move, old(self).state.ep_square);
            crate::rules::lemma_mv_bounds(bit_move);
        }
        self.turn = them;
        self.half_moves = self.half_moves + 1;
        self.depth = self.depth + 1;
        let new_ply = self.state.ply + 1;
        let captured: Option<Piece> = if cap_code == 0 {
            None
        } else {
            Some(crate::types::decode_piece(cap_code))
        };
        let ci = compute_check_info(&self.sq, them);
        let state = BoardState {
            castling: new_cast,
            rule_50: new_rule50,
            ply: new_ply,
            ep_square: new_ep,
            zobrast: z,
            captured_piece: captured,
            checkers_bb: ci.checkers,
            blockers_white: ci.bw,
            blockers_black: ci.bb,
            pinners_white: ci.pw,
            pinners_black: ci.pb,
            csq_p: ci.cp,
            csq_n: ci.cn,
            csq_b: ci.cb,
            csq_r: ci.cr,
            csq_q: ci.cq,
            csq_k: 0,
            prev_move: bit_move,
            prev: Some(Arc::clone(&self.state)),
            pre: Ghost(crate::state::PrePly { placement: self.sq@, turn: them }),
        };
        self.state = Arc::new(state);
        proof {
            assert forall|j: u8| j < 64 implies !crate::bits::bit64(0u64, j) by {
                crate::bits::lemma_bit_empty(j);
            }
        }
    }
}


impl Board {
    /// Takes back the most recent move, restoring the previous position
    /// exactly: placement, side to move, and every recorded fact,
    /// including the hash.
    ///
    /// Valid only when this board still holds the record its last move
    /// pushed: a copy that reset the undo frontier must not undo moves
    /// it did not itself apply.
    #[verifier::rlimit(100)]
    pub fn undo_move(&mut self)
        requires
            old(self).wf(),
            old(self).state.prev is Some,
            old(self).state.prev_move.data != 0,
            old(self).half_moves >= 1,
            old(self).depth >= 1,
        ensures
            final(self).wf(),
            final(self).placement() == old(self).state.prev->Some_0.pre@.placement,
            *final(self).state == *old(self).state.prev->Some_0,
            final(self).turn == old(self).turn.flip(),
            final(self).half_moves == old(self).half_moves - 1,
            final(self).depth == old(self).depth - 1,
    {
        let m = self.state.prev_move;
        proof {
            crate::rules::lemma_mv_bounds(m);
        }
        let us = self.turn.other_player();
        let them = self.turn;
        let from = m.get_src();
        let to = m.get_dest();
        let mt = m.move_type();
        let ghost p_prev = old(self).state.prev->Some_0.pre@.placement;
        proof {
            assert(old(self).placement() == apply_placement(p_prev, us, m));
            assert(move_ok(p_prev, us, m, old(self).state.prev->Some_0.ep_square));
        }
        let cap: Option<Piece> = self.state.captured_piece;
        if mt == MoveType::Castle {
            let kd = crate::types::relative_square(us, if to > from {
                6
            } else {
                2
            });
            let rd = crate::types::relative_square(us, if to > from {
                5
            } else {
                3
            });
            self.sq.take(kd);
            self.sq.take(rd);
            self.sq.put(from, us, Piece::K);
            self.sq.put(to, us, Piece::R);
            proof {
                assert(self.sq@ =~= p_prev);
            }
        } else if mt == MoveType::EnPassant {
            let capsq = if to >= 8 && us == Player::White {
                to - 8
            } else {
                to + 8
            };
            self.sq.take(to);
            self.sq.put(from, us, Piece::P);
            self.sq.put(capsq, them, Piece::P);
            proof {
                assert(self.sq@ =~= p_prev);
            }
        } else if mt == MoveType::Promotion {
            self.sq.take(to);
            self.sq.put(from, us, Piece::P);
            match cap {
                Some(cp) => {
                    self.sq.put(to, them, cp);
                },
                None => {
                },
            }
            proof {
                assert(self.sq@ =~= p_prev);
            }
        } else {
            let moved_code = self.sq.code_at(to);
            let moved = crate::types::decode_piece(moved_code);
            self.sq.take(to);
            self.sq.put(from, us, moved);
            match cap {
                Some(cp) => {
                    self.sq.put(to, them, cp);
                },
                None => {
                },
            }
            proof {
                assert(self.sq@ =~= p_prev);
            }
        }
        let prev_arc = match &self.state.prev {
            Some(pr) => Arc::clone(pr),
            None => unreached(),
        };
        self.state = prev_arc;
        self.turn = us;
        self.half_moves = self.half_moves - 1;
        self.depth = self.depth - 1;
    }
}


impl Board {
    /// Passes the turn without moving a piece: flips the side to move,
    /// clears the en-passant square, and pushes a record whose move is
    /// null.  For search heuristics only; the side to move must not be
    /// in check.
    #[verifier::rlimit(100)]
    pub fn apply_null_move(&mut self)
        requires
            old(self).wf(),
            old(self).state.checkers_bb == 0,
            old(self).depth < 65535,
            old(self).state.ply < 65535,
            old(self).state.rule_50 < 32767,
        ensures
            final(self).wf(),
            final(self).placement() == old(self).placement(),
            final(self).turn == old(self).turn.flip(),
            final(self).half_moves == old(self).half_moves,
            final(self).depth == old(self).depth + 1,
            final(self).state.prev is Some,
            *final(self).state.prev->Some_0 == *old(self).state,
            final(self).state.prev_move.data == 0,
            final(self).state.ep_square == 64,
            final(self).state.castling == old(self).state.castling,
            final(self).state.ply == old(self).state.ply + 1,
            final(self).state.rule_50 == old(self).state.rule_50 + 1,
    {
        let us = self.turn;
        let them = us.other_player();
        let old_ep = self.state.ep_square;
        let old_zob = self.state.zobrast;
        let cast = self.state.castling;
        let z = (old_zob ^ zkey_of(792)) ^ zob_ep_of(old_ep);
        proof {
            let p = old(self).placement();
            let zs = zob_squares(p, 64);
            let e0 = zob_ep(old_ep);
            let c0 = zob_castle(cast);
            let s0 = zob_side(us);
            let s1 = zob_side(them);
            let k = crate::zobrist::zkey(792);
            assert(zob_ep(64) == 0);
            assert(z == zs ^ 0 ^ c0 ^ s1) by (bit_vector)
                requires
                    z == (old_zob ^ k) ^ e0,
                    old_zob == zs ^ e0 ^ c0 ^ s0,
                    (s0 == 0 ==> s1 == k) && (s0 == k ==> s1 == 0),
                    s0 == 0 || s0 == k,
            ;
        }
        self.turn = them;
        self.depth = self.depth + 1;
        let new_ply = self.state.ply + 1;
        let new_rule50 = self.state.rule_50 + 1;
        let ci = compute_check_info(&self.sq, them);
        let state = BoardState {
            castling: cast,
            rule_50: new_rule50,
            ply: new_ply,
            ep_square: 64,
            zobrast: z,
            captured_piece: None,
            checkers_bb: ci.checkers,
            blockers_white: ci.bw,
            blockers_black: ci.bb,
            pinners_white: ci.pw,
            pinners_black: ci.pb,
            csq_p: ci.cp,
            csq_n: ci.cn,
            csq_b: ci.cb,
            csq_r: ci.cr,
            csq_q: ci.cq,
            csq_k: 0,
            prev_move: crate::moves::BitMove::null(),
            prev: Some(Arc::clone(&self.state)),
            pre: Ghost(crate::state::PrePly { placement: self.sq@, turn: them }),
        };
        self.state = Arc::new(state);
        proof {
            assert forall|j: u8| j < 64 implies !crate::bits::bit64(0u64, j) by {
                crate::bits::lemma_bit_empty(j);
            }
        }
    }

    /// Takes back a null move: flips the side to move back and pops the
    /// record.  The last push must have been a null move.
    pub fn undo_null_move(&mut self)
        requires
            old(self).wf(),
            old(self).state.prev is Some,
            old(self).state.prev_move.data == 0,
        ensures
            final(self).wf(),
            final(self).placement() == old(self).placement(),
            final(self).turn == old(self).turn.flip(),
            final(self).half_moves == old(self).half_moves,
            final(self).depth == old(self).depth,
            *final(self).state == *old(self).state.prev->Some_0,
    {
        self.turn = self.turn.other_player();
        let prev_arc = match &self.state.prev {
            Some(pr) => Arc::clone(pr),
            None => unreached(),
        };
        self.state = prev_arc;
    }
}

} // verus!
