//! Move generation and move testing.  Pseudo-legal moves are generated
//! square by square from the piece geometry; legality is decided by
//! simulating the move on a scratch copy and testing whether the mover's
//! king is attacked afterwards — which uniformly covers pins, en-passant
//! exposure, king moves and check evasion.
//!
//! The generator's contract is exact in both directions: every move it
//! hands out is pseudo-legal and king-safe, and every pseudo-legal,
//! king-safe move appears in its list — so the legal-move lists of a
//! position are pinned completely.

use vstd::prelude::*;

use crate::bits::{bit64, lsb_index};
use crate::board::{Board, sq_attackers_of, sq_king};
use crate::moves::{BitMove, MoveType, mv_dst, mv_promo, mv_src, mv_tag, mv_type};
use crate::rules::{apply_placement, attacked_by, captured_code, is_checker, ksq_of, move_ok};
use crate::squares::Squares;
use crate::types::{GenTypes, Piece, Player, code_is_of, code_of, code_piece};

verus! {

/// Applies a move to a scratch copy of the square data.
fn sim_apply(sq: &Squares, m: BitMove, us: Player, Ghost(ep): Ghost<u8>) -> (r: Squares)
    requires
        sq.cong(),
        move_ok(sq@, us, m, ep),
    ensures
        r.cong(),
        r@ == apply_placement(sq@, us, m),
{
    proof {
        crate::rules::lemma_mv_bounds(m);
    }
    let from = m.get_src();
    let to = m.get_dest();
    let mt = m.move_type();
    let mut r = sq.duplicate();
    if mt == MoveType::Castle {
        let kd = crate::types::relative_square(us, if to > from {
            6
        } else {
            2
        });
        let rd = crate::types::relative_square(us, if to > from {
            5
        } else {
            3
        });
        r.take(from);
        r.take(to);
        r.put(kd, us, Piece::K);
        r.put(rd, us, Piece::R);
        proof {
            assert(r@ =~= apply_placement(sq@, us, m));
        }
    } else if mt == MoveType::EnPassant {
        let capsq = if to >= 8 && us == Player::White {
            to - 8
        } else {
            to + 8
        };
        r.take(capsq);
        r.take(from);
        r.put(to, us, Piece::P);
        proof {
            assert(r@ =~= apply_placement(sq@, us, m));
        }
    } else if mt == MoveType::Promotion {
        if r.code_at(to) != 0 {
            r.take(to);
        }
        r.take(from);
        r.put(to, us, m.promo_piece());
        proof {
            assert(r@ =~= apply_placement(sq@, us, m));
        }
    } else {
        let moved_code = r.code_at(from);
        let moved = crate::types::decode_piece(moved_code);
        if r.code_at(to) != 0 {
            r.take(to);
        }
        r.take(from);
        r.put(to, us, moved);
        proof {
            assert(r@ =~= apply_placement(sq@, us, m));
        }
    }
    r
}

impl Board {
    /// Whether applying the structurally sound move `m` leaves the
    /// mover's own king safe: pins, en-passant exposure, king walks and
    /// check evasion all reduce to this one test.
    pub fn legal_move(&self, m: BitMove) -> (r: bool)
        requires
            self.wf(),
            move_ok(self.placement(), self.turn, m, self.state.ep_square),
        ensures
            r == !attacked_by(
                apply_placement(self.placement(), self.turn, m),
                self.turn.flip(),
                ksq_of(apply_placement(self.placement(), self.turn, m), self.turn),
            ),
    {
        proof {
            crate::rules::lemma_apply_wf(
                self.placement(),
                self.turn,
                m,
                self.state.ep_square,
            );
        }
        let sim = sim_apply(&self.sq, m, self.turn, Ghost(self.state.ep_square));
        let k = sq_king(&sim, self.turn);
        let att = sq_attackers_of(&sim, self.turn.other_player(), k);
        let s = lsb_index(att);
        proof {
            let q = apply_placement(self.placement(), self.turn, m);
            if s < 64 {
                assert(is_checker(q, self.turn.flip(), s, ksq_of(q, self.turn)));
            } else {
                assert forall|t: u8| !is_checker(q, self.turn.flip(), t, ksq_of(q, self.turn)) by {
                    if t < 64 {
                        assert(!bit64(att, t));
                    }
                }
            }
        }
        s == 64
    }

    /// Whether applying the structurally sound move `m` puts the enemy
    /// king in check — directly, by discovery, or through the special
    /// geometry of promotions, en-passant captures and castles.
    pub fn gives_check(&self, m: BitMove) -> (r: bool)
        requires
            self.wf(),
            move_ok(self.placement(), self.turn, m, self.state.ep_square),
        ensures
            r == attacked_by(
                apply_placement(self.placement(), self.turn, m),
                self.turn,
                ksq_of(apply_placement(self.placement(), self.turn, m), self.turn.flip()),
            ),
    {
        proof {
            crate::rules::lemma_apply_wf(
                self.placement(),
                self.turn,
                m,
                self.state.ep_square,
            );
        }
        let sim = sim_apply(&self.sq, m, self.turn, Ghost(self.state.ep_square));
        let k = sq_king(&sim, self.turn.other_player());
        let att = sq_attackers_of(&sim, self.turn, k);
        let s = lsb_index(att);
        proof {
            let q = apply_placement(self.placement(), self.turn, m);
            if s < 64 {
                assert(is_checker(q, self.turn, s, ksq_of(q, self.turn.flip())));
            } else {
                assert forall|t: u8| !is_checker(q, self.turn, t, ksq_of(q, self.turn.flip())) by {
                    if t < 64 {
                        assert(!bit64(att, t));
                    }
                }
            }
        }
        s < 64
    }
}

/// The promotion bits of a packed move are clear: the canonical
/// encoding of every move that is not a promotion.
pub open spec fn promo_clear(m: BitMove) -> bool {
    (m.data >> 12) & 3 == 0
}

/// A pseudo-legal move: structurally sound, and the mover actually
/// reaches the destination by its movement rules; a castle additionally
/// has its right intact and neither starts from nor crosses an attacked
/// square.  This is exactly the family the generator enumerates; king
/// safety is the one test left out.
pub open spec fn pseudo_legal(p: Seq<u8>, us: Player, cas: u8, ep: u8, m: BitMove) -> bool {
    let from = mv_src(m);
    let to = mv_dst(m);
    move_ok(p, us, m, ep) && match mv_type(m) {
        MoveType::Normal => promo_clear(m) && (code_piece(p[from as int]) == Piece::P
            || piece_reaches(p, from, to)),
        MoveType::Promotion => true,
        MoveType::EnPassant => promo_clear(m),
        MoveType::Castle => promo_clear(m) && crate::castling::has_right(cas, us, (if to > from {
            crate::types::CastleType::KingSide
        } else {
            crate::types::CastleType::QueenSide
        })) && !attacked_by(p, us.flip(), ksq_of(p, us)) && !attacked_by(
            p,
            us.flip(),
            crate::rules::castle_k_dst(us, to, from),
        ) && !attacked_by(p, us.flip(), crate::rules::castle_r_dst(us, to, from)),
    }
}

/// The movement reach of the piece standing on `from`, ignoring the
/// target's contents.
pub open spec fn piece_reaches(p: Seq<u8>, from: u8, to: u8) -> bool {
    match code_piece(p[from as int]) {
        Piece::N => crate::geometry::knight_geom(from, to),
        Piece::B => crate::geometry::bishop_line(from, to) && crate::rules::clear_between_p(
            p,
            from,
            to,
        ),
        Piece::R => crate::geometry::rook_line(from, to) && crate::rules::clear_between_p(
            p,
            from,
            to,
        ),
        Piece::Q => (crate::geometry::rook_line(from, to) || crate::geometry::bishop_line(
            from,
            to,
        )) && crate::rules::clear_between_p(p, from, to),
        Piece::K => crate::geometry::king_geom(from, to),
        Piece::P => true,
    }
}

/// Applying the move leaves the mover's own king unattacked.
pub open spec fn king_safe(p: Seq<u8>, us: Player, m: BitMove) -> bool {
    !attacked_by(
        apply_placement(p, us, m),
        us.flip(),
        ksq_of(apply_placement(p, us, m), us),
    )
}

/// Applying the move puts the enemy king in check.
pub open spec fn gives_check_after(p: Seq<u8>, us: Player, m: BitMove) -> bool {
    attacked_by(
        apply_placement(p, us, m),
        us,
        ksq_of(apply_placement(p, us, m), us.flip()),
    )
}

/// Which moves belong to a generation family: everything, the captures,
/// the quiet moves, or the quiet moves that give check.
pub open spec fn in_family(p: Seq<u8>, us: Player, m: BitMove, gen_type: GenTypes) -> bool {
    match gen_type {
        GenTypes::All => true,
        GenTypes::Evasions => true,
        GenTypes::NonEvasions => true,
        GenTypes::Captures => captured_code(p, us, m) != 0,
        GenTypes::Quiets => captured_code(p, us, m) == 0,
        GenTypes::QuietChecks => captured_code(p, us, m) == 0 && gives_check_after(p, us, m),
    }
}

/// Every move of the list is pseudo-legal.
pub open spec fn all_pl(v: Seq<BitMove>, p: Seq<u8>, us: Player, cas: u8, ep: u8) -> bool {
    forall|i: int| 0 <= i < v.len() ==> pseudo_legal(p, us, cas, ep, #[trigger] v[i])
}

/// Two packed moves with the same fields are the same move.
proof fn lemma_mv_data(m1: BitMove, m2: BitMove)
    requires
        mv_src(m1) == mv_src(m2),
        mv_dst(m1) == mv_dst(m2),
        mv_tag(m1) == mv_tag(m2),
        (m1.data >> 12) & 3 == (m2.data >> 12) & 3,
    ensures
        m1 == m2,
{
    let d1 = m1.data;
    let d2 = m2.data;
    assert(((((d1 >> 6) & 0x3f) as u8 == ((d2 >> 6) & 0x3f) as u8) && ((d1 & 0x3f) as u8 == (d2
        & 0x3f) as u8) && d1 >> 14 == d2 >> 14 && (d1 >> 12) & 3 == (d2 >> 12) & 3) ==> d1 == d2)
        by (bit_vector);
}

/// A pseudo-legal pawn move from `src` that keeps its file: a push,
/// a double push, or a promotion by push.
pub open spec fn push_family(
    p: Seq<u8>,
    us: Player,
    cas: u8,
    ep: u8,
    m: BitMove,
    src: u8,
) -> bool {
    pseudo_legal(p, us, cas, ep, m) && mv_src(m) == src && crate::types::file_of(mv_dst(m))
        == crate::types::file_of(src)
}

/// Where a file-keeping pawn move can land: one step forward onto an
/// empty square, or — for a plain double push from the second relative
/// rank — two steps over an empty middle square.
proof fn lemma_push_dst(
    p: Seq<u8>,
    us: Player,
    cas: u8,
    ep: u8,
    m: BitMove,
    src: u8,
    d1: int,
    d2: int,
)
    requires
        src < 64,
        p.len() == 64,
        pseudo_legal(p, us, cas, ep, m),
        mv_src(m) == src,
        code_piece(p[src as int]) == Piece::P,
        crate::types::file_of(mv_dst(m)) == crate::types::file_of(src),
        d1 == src + crate::rules::pawn_dir_rank(us) * 8,
        d2 == src + crate::rules::pawn_dir_rank(us) * 16,
    ensures
        mv_type(m) == MoveType::Normal || mv_type(m) == MoveType::Promotion,
        mv_dst(m) as int == d1 || mv_dst(m) as int == d2,
        0 <= d1 < 64,
        p[d1] == 0,
        mv_dst(m) as int == d2 ==> mv_type(m) == MoveType::Normal
            && crate::types::relative_rank_of(us, src) == 1 && 0 <= d2 < 64 && p[d2] == 0,
        mv_type(m) == MoveType::Normal ==> mv_dst(m) as int == d1
            ==> crate::types::relative_rank_of(us, src) != 6,
        mv_type(m) == MoveType::Promotion ==> mv_dst(m) as int == d1
            && crate::types::relative_rank_of(us, src) == 6,
{
    crate::rules::lemma_mv_bounds(m);
    let to = mv_dst(m);
    assert(to as int == 8 * ((to as int) / 8) + (to as int) % 8);
    assert(src as int == 8 * ((src as int) / 8) + (src as int) % 8);
    if mv_type(m) == MoveType::Normal {
        if crate::types::rank_of(to) == crate::types::rank_of(src) + crate::rules::pawn_dir_rank(
            us,
        ) {
            assert(to as int == d1);
        } else {
            assert(to as int == d2);
            assert(crate::rules::mid_sq(src, to) as int == d1);
        }
    } else {
        assert(to as int == d1);
    }
}

/// Where a file-changing pawn move can land: one step diagonally
/// forward.
proof fn lemma_cap_dst(
    p: Seq<u8>,
    us: Player,
    cas: u8,
    ep: u8,
    m: BitMove,
    src: u8,
    d1: int,
)
    requires
        src < 64,
        p.len() == 64,
        pseudo_legal(p, us, cas, ep, m),
        mv_src(m) == src,
        code_piece(p[src as int]) == Piece::P,
        crate::types::file_of(mv_dst(m)) != crate::types::file_of(src),
        d1 == src + crate::rules::pawn_dir_rank(us) * 8,
    ensures
        crate::geometry::pawn_att_geom(us, src, mv_dst(m)),
        mv_dst(m) as int == d1 - 1 || mv_dst(m) as int == d1 + 1,
{
    crate::rules::lemma_mv_bounds(m);
    let to = mv_dst(m);
    assert(to as int == 8 * ((to as int) / 8) + (to as int) % 8);
    assert(src as int == 8 * ((src as int) / 8) + (src as int) % 8);
}

/// Pushing keeps what the list already holds and adds the new element.
proof fn lemma_push_contains(s: Seq<BitMove>, x: BitMove)
    ensures
        forall|y: BitMove| s.contains(y) ==> #[trigger] s.push(x).contains(y),
        s.push(x).contains(x),
{
    assert(s.push(x)[s.len() as int] == x);
    assert forall|y: BitMove| s.contains(y) implies #[trigger] s.push(x).contains(y) by {
        let i = choose|i: int| 0 <= i < s.len() && s[i] == y;
        assert(s.push(x)[i] == y);
    }
}

impl Board {
    /// Appends the moves of the pawn on `src` — pushes, captures,
    /// promotions and the en-passant capture: exactly the pseudo-legal
    /// moves from that square.
    #[verifier::rlimit(100)]
    fn gen_pawn_moves(&self, src: u8, v: &mut Vec<BitMove>)
        requires
            self.sq.cong(),
            crate::state::ep_sane(self.placement(), self.turn, self.state.ep_square),
            src < 64,
            self.placement()[src as int] == code_of(self.turn, Piece::P),
            all_pl(
                old(v)@,
                self.placement(),
                self.turn,
                self.state.castling,
                self.state.ep_square,
            ),
        ensures
            all_pl(
                final(v)@,
                self.placement(),
                self.turn,
                self.state.castling,
                self.state.ep_square,
            ),
            forall|m: BitMove| old(v)@.contains(m) ==> final(v)@.contains(m),
            forall|m: BitMove|
                pseudo_legal(self.placement(), self.turn, self.state.castling,
                self.state.ep_square, m) && mv_src(m) == src ==> final(v)@.contains(m),
    {
        let us = self.turn;
        let ghost cas = self.state.castling;
        let ghost ep = self.state.ep_square;
        let rank = src / 8;
        let rel_rank = match us {
            Player::White => rank,
            Player::Black => 7 - rank,
        };
        let fwd: i32 = match us {
            Player::White => 8,
            Player::Black => -8,
        };
        // The push family first: every pseudo-legal pawn move that keeps
        // its file goes one or two steps forward.
        let d1 = (src as i32) + fwd;
        let d2 = (src as i32) + 2 * fwd;
        if 0 <= d1 && d1 < 64 {
            let dst = d1 as u8;
            if self.sq.code_at(dst) == 0 {
                if rel_rank == 6 {
                    self.push_promos(src, dst, v);
                    proof {
                        assert forall|m: BitMove| push_family(self.placement(), us, cas, ep, m, src)
                            implies v@.contains(m) by {
                            lemma_push_dst(self.placement(), us, cas, ep, m, src, d1 as int,
                            d2 as int);
                            assert(mv_type(m) == MoveType::Promotion && mv_dst(m) == dst);
                        }
                    }
                } else {
                    let mv1 = BitMove::make(src, dst, 0, 0);
                    proof {
                        assert(pseudo_legal(self.placement(), us, cas, ep, mv1));
                        lemma_push_contains(v@, mv1);
                    }
                    v.push(mv1);
                    if rel_rank == 1 && 0 <= d2 && d2 < 64 {
                        let dst2 = d2 as u8;
                        if self.sq.code_at(dst2) == 0 {
                            let mv2 = BitMove::make(src, dst2, 0, 0);
                            proof {
                                assert(crate::rules::mid_sq(src, dst2) == dst);
                                assert(pseudo_legal(self.placement(), us, cas, ep, mv2));
                                lemma_push_contains(v@, mv2);
                            }
                            v.push(mv2);
                            proof {
                                assert forall|m: BitMove|
                                    push_family(self.placement(), us, cas, ep, m, src) && mv_dst(
                                        m,
                                    ) as int == d2 implies v@.contains(m) by {
                                    lemma_push_dst(self.placement(), us, cas, ep, m, src,
                                    d1 as int, d2 as int);
                                    lemma_mv_data(m, mv2);
                                }
                            }
                        } else {
                            proof {
                                assert forall|m: BitMove|
                                    !(push_family(self.placement(), us, cas, ep, m, src) && mv_dst(
                                        m,
                                    ) as int == d2) by {
                                    if push_family(self.placement(), us, cas, ep, m, src) {
                                        lemma_push_dst(self.placement(), us, cas, ep, m, src,
                                        d1 as int, d2 as int);
                                    }
                                }
                            }
                        }
                    } else {
                        proof {
                            assert forall|m: BitMove|
                                !(push_family(self.placement(), us, cas, ep, m, src) && mv_dst(
                                    m,
                                ) as int == d2) by {
                                if push_family(self.placement(), us, cas, ep, m, src) {
                                    lemma_push_dst(self.placement(), us, cas, ep, m, src, d1 as int,
                                    d2 as int);
                                }
                            }
                        }
                    }
                    proof {
                        assert forall|m: BitMove| push_family(self.placement(), us, cas, ep, m, src)
                            implies v@.contains(m) by {
                            lemma_push_dst(self.placement(), us, cas, ep, m, src, d1 as int,
                            d2 as int);
                            if mv_dst(m) as int == d1 {
                                lemma_mv_data(m, mv1);
                            }
                        }
                    }
                }
            } else {
                proof {
                    assert forall|m: BitMove|
                        !push_family(self.placement(), us, cas, ep, m, src) by {
                        if push_family(self.placement(), us, cas, ep, m, src) {
                            lemma_push_dst(self.placement(), us, cas, ep, m, src, d1 as int,
                            d2 as int);
                        }
                    }
                }
            }
        } else {
            proof {
                assert forall|m: BitMove| !push_family(self.placement(), us, cas, ep, m, src) by {
                    if push_family(self.placement(), us, cas, ep, m, src) {
                        lemma_push_dst(self.placement(), us, cas, ep, m, src, d1 as int,
                        d2 as int);
                    }
                }
            }
        }
        // The capture family: one file to either side.
        self.try_pawn_cap(src, rel_rank, d1 - 1, v);
        self.try_pawn_cap(src, rel_rank, d1 + 1, v);
        proof {
            assert forall|m: BitMove|
                pseudo_legal(self.placement(), us, cas, ep, m) && mv_src(m) == src implies v@.contains(
                m,
            ) by {
                crate::rules::lemma_mv_bounds(m);
                if crate::types::file_of(mv_dst(m)) != crate::types::file_of(src) {
                    lemma_cap_dst(self.placement(), us, cas, ep, m, src, d1 as int);
                }
            }
        }
    }

    /// Appends the pawn capture from `src` toward `d`, when `d` is a
    /// board square one file away: exactly the pseudo-legal captures,
    /// promotion captures and en-passant captures with that target.
    #[verifier::rlimit(100)]
    fn try_pawn_cap(&self, src: u8, rel_rank: u8, d: i32, v: &mut Vec<BitMove>)
        requires
            self.sq.cong(),
            crate::state::ep_sane(self.placement(), self.turn, self.state.ep_square),
            src < 64,
            self.placement()[src as int] == code_of(self.turn, Piece::P),
            rel_rank == crate::types::relative_rank_of(self.turn, src),
            d == src + crate::rules::pawn_dir_rank(self.turn) * 8 - 1 || d == src
                + crate::rules::pawn_dir_rank(self.turn) * 8 + 1,
            all_pl(
                old(v)@,
                self.placement(),
                self.turn,
                self.state.castling,
                self.state.ep_square,
            ),
        ensures
            all_pl(
                final(v)@,
                self.placement(),
                self.turn,
                self.state.castling,
                self.state.ep_square,
            ),
            forall|m: BitMove| old(v)@.contains(m) ==> final(v)@.contains(m),
            forall|m: BitMove|
                pseudo_legal(self.placement(), self.turn, self.state.castling,
                self.state.ep_square, m) && mv_src(m) == src && mv_dst(m) as int == d
                    ==> final(v)@.contains(m),
    {
        let us = self.turn;
        let ghost cas = self.state.castling;
        let ghost ep = self.state.ep_square;
        let them = us.other_player();
        if d < 0 || d >= 64 {
            proof {
                assert forall|m: BitMove| !(mv_dst(m) as int == d) by {
                    crate::rules::lemma_mv_bounds(m);
                }
            }
            return ;
        }
        let dst = d as u8;
        let file = src % 8;
        let fd = if dst % 8 >= file {
            dst % 8 - file
        } else {
            file - dst % 8
        };
        if fd != 1 {
            // The step wrapped around the board's edge: no pawn move has
            // this target.
            proof {
                assert forall|m: BitMove|
                    !(pseudo_legal(self.placement(), us, cas, ep, m) && mv_src(m) == src && mv_dst(
                        m,
                    ) as int == d) by {
                    if pseudo_legal(self.placement(), us, cas, ep, m) && mv_src(m) == src
                        && mv_dst(m) as int == d {
                        crate::rules::lemma_mv_bounds(m);
                        lemma_push_dst(self.placement(), us, cas, ep, m, src, src as int
                            + crate::rules::pawn_dir_rank(us) * 8, src as int
                            + crate::rules::pawn_dir_rank(us) * 16);
                    }
                }
            }
            return ;
        }
        proof {
            assert(crate::geometry::pawn_att_geom(us, src, dst)) by {
                assert(dst as int == 8 * ((dst as int) / 8) + (dst as int) % 8);
                assert(src as int == 8 * ((src as int) / 8) + (src as int) % 8);
            }
        }
        let tc = self.sq.code_at(dst);
        let enemy = tc != 0 && (if tc <= 6 {
            them == Player::White
        } else {
            them == Player::Black
        });
        proof {
            if tc != 0 {
                crate::types::lemma_code_decode(tc);
            }
        }
        if enemy && crate::types::decode_piece(tc) != Piece::K {
            if rel_rank == 6 {
                self.push_promos(src, dst, v);
                proof {
                    assert forall|m: BitMove|
                        pseudo_legal(self.placement(), us, cas, ep, m) && mv_src(m) == src
                            && mv_dst(m) as int == d implies v@.contains(m) by {
                        crate::rules::lemma_mv_bounds(m);
                        assert(mv_dst(m) == dst);
                        assert(mv_type(m) != MoveType::EnPassant);
                        assert(mv_type(m) != MoveType::Normal);
                    }
                }
            } else {
                let mv = BitMove::make(src, dst, 0, 0);
                proof {
                    assert(pseudo_legal(self.placement(), us, cas, ep, mv));
                    lemma_push_contains(v@, mv);
                }
                v.push(mv);
                proof {
                    assert forall|m: BitMove|
                        pseudo_legal(self.placement(), us, cas, ep, m) && mv_src(m) == src
                            && mv_dst(m) as int == d implies v@.contains(m) by {
                        crate::rules::lemma_mv_bounds(m);
                        assert(mv_dst(m) == dst);
                        assert(mv_type(m) != MoveType::EnPassant);
                        assert(mv_type(m) != MoveType::Promotion);
                        lemma_mv_data(m, mv);
                    }
                }
            }
        } else if self.state.ep_square < 64 && dst == self.state.ep_square && tc == 0 {
            let mv = BitMove::make(src, dst, 2, 0);
            proof {
                assert(pseudo_legal(self.placement(), us, cas, ep, mv));
                lemma_push_contains(v@, mv);
            }
            v.push(mv);
            proof {
                assert forall|m: BitMove|
                    pseudo_legal(self.placement(), us, cas, ep, m) && mv_src(m) == src && mv_dst(
                        m,
                    ) as int == d implies v@.contains(m) by {
                    crate::rules::lemma_mv_bounds(m);
                    assert(mv_dst(m) == dst);
                    assert(mv_type(m) != MoveType::Normal);
                    assert(mv_type(m) != MoveType::Promotion);
                    lemma_mv_data(m, mv);
                }
            }
        } else {
            proof {
                assert forall|m: BitMove|
                    !(pseudo_legal(self.placement(), us, cas, ep, m) && mv_src(m) == src && mv_dst(
                        m,
                    ) as int == d) by {
                    if pseudo_legal(self.placement(), us, cas, ep, m) && mv_src(m) == src
                        && mv_dst(m) as int == d {
                        crate::rules::lemma_mv_bounds(m);
                        assert(mv_dst(m) == dst);
                    }
                }
            }
        }
    }

    /// Appends the four promotions from `src` to `dst`: exactly the
    /// pseudo-legal promotion moves between those squares.
    fn push_promos(&self, src: u8, dst: u8, v: &mut Vec<BitMove>)
        requires
            self.sq.cong(),
            src < 64,
            dst < 64,
            src != dst,
            self.placement()[src as int] == code_of(self.turn, Piece::P),
            crate::types::relative_rank_of(self.turn, dst) == 7,
            self.placement()[dst as int] == 0 || (crate::types::code_is_of(
                self.placement()[dst as int],
                self.turn.flip(),
            ) && code_piece(self.placement()[dst as int]) != Piece::K),
            (crate::types::file_of(dst) == crate::types::file_of(src)
                && self.placement()[dst as int] == 0 && crate::types::rank_of(dst)
                == crate::types::rank_of(src) + crate::rules::pawn_dir_rank(self.turn)) || (
            crate::geometry::pawn_att_geom(self.turn, src, dst) && crate::types::code_is_of(
                self.placement()[dst as int],
                self.turn.flip(),
            )),
            all_pl(
                old(v)@,
                self.placement(),
                self.turn,
                self.state.castling,
                self.state.ep_square,
            ),
        ensures
            all_pl(
                final(v)@,
                self.placement(),
                self.turn,
                self.state.castling,
                self.state.ep_square,
            ),
            forall|m: BitMove| old(v)@.contains(m) ==> final(v)@.contains(m),
            forall|m: BitMove|
                pseudo_legal(self.placement(), self.turn, self.state.castling,
                self.state.ep_square, m) && mv_src(m) == src && mv_dst(m) == dst && mv_type(m)
                    == MoveType::Promotion ==> final(v)@.contains(m),
    {
        let ghost cas = self.state.castling;
        let ghost ep = self.state.ep_square;
        let mut k: u16 = 0;
        while k < 4
            invariant
                self.sq.cong(),
                src < 64,
                dst < 64,
                src != dst,
                cas == self.state.castling,
                ep == self.state.ep_square,
                self.placement()[src as int] == code_of(self.turn, Piece::P),
                crate::types::relative_rank_of(self.turn, dst) == 7,
                self.placement()[dst as int] == 0 || (crate::types::code_is_of(
                    self.placement()[dst as int],
                    self.turn.flip(),
                ) && code_piece(self.placement()[dst as int]) != Piece::K),
                (crate::types::file_of(dst) == crate::types::file_of(src)
                    && self.placement()[dst as int] == 0 && crate::types::rank_of(dst)
                    == crate::types::rank_of(src) + crate::rules::pawn_dir_rank(self.turn)) || (
                crate::geometry::pawn_att_geom(self.turn, src, dst) && crate::types::code_is_of(
                    self.placement()[dst as int],
                    self.turn.flip(),
                )),
                all_pl(v@, self.placement(), self.turn, cas, ep),
                forall|m: BitMove| old(v)@.contains(m) ==> v@.contains(m),
                forall|m: BitMove|
                    pseudo_legal(self.placement(), self.turn, cas, ep, m) && mv_src(m) == src
                        && mv_dst(m) == dst && mv_type(m) == MoveType::Promotion && (m.data >> 12)
                        & 3 < k ==> v@.contains(m),
            decreases 4 - k,
        {
            let mv = BitMove::make(src, dst, 1, k);
            proof {
                assert(mv_promo(mv) == Piece::N || mv_promo(mv) == Piece::B || mv_promo(mv)
                    == Piece::R || mv_promo(mv) == Piece::Q);
                assert(pseudo_legal(self.placement(), self.turn, cas, ep, mv));
                lemma_push_contains(v@, mv);
                assert forall|m: BitMove|
                    pseudo_legal(self.placement(), self.turn, cas, ep, m) && mv_src(m) == src
                        && mv_dst(m) == dst && mv_type(m) == MoveType::Promotion && (m.data >> 12)
                        & 3 == k implies v@.push(mv).contains(m) by {
                    lemma_mv_data(m, mv);
                }
            }
            v.push(mv);
            k = k + 1;
        }
        proof {
            assert forall|m: BitMove|
                pseudo_legal(self.placement(), self.turn, cas, ep, m) && mv_src(m) == src
                    && mv_dst(m) == dst && mv_type(m) == MoveType::Promotion implies v@.contains(
                m,
            ) by {
                let dd = m.data;
                assert((dd >> 12) & 3 < 4) by (bit_vector);
            }
        }
    }

    /// Appends the moves of the knight, bishop, rook, queen or king on
    /// `src`: exactly the pseudo-legal plain moves from that square.
    #[verifier::rlimit(100)]
    fn gen_piece_moves(&self, src: u8, pc: Piece, v: &mut Vec<BitMove>)
        requires
            self.sq.cong(),
            src < 64,
            self.placement()[src as int] == code_of(self.turn, pc),
            pc != Piece::P,
            all_pl(
                old(v)@,
                self.placement(),
                self.turn,
                self.state.castling,
                self.state.ep_square,
            ),
        ensures
            all_pl(
                final(v)@,
                self.placement(),
                self.turn,
                self.state.castling,
                self.state.ep_square,
            ),
            forall|m: BitMove| old(v)@.contains(m) ==> final(v)@.contains(m),
            forall|m: BitMove|
                pseudo_legal(self.placement(), self.turn, self.state.castling,
                self.state.ep_square, m) && mv_src(m) == src && mv_type(m) == MoveType::Normal
                    ==> final(v)@.contains(m),
    {
        let us = self.turn;
        let ghost cas = self.state.castling;
        let ghost ep = self.state.ep_square;
        let mut dst: u8 = 0;
        while dst < 64
            invariant
                self.sq.cong(),
                us == self.turn,
                cas == self.state.castling,
                ep == self.state.ep_square,
                src < 64,
                pc != Piece::P,
                self.placement()[src as int] == code_of(self.turn, pc),
                all_pl(v@, self.placement(), us, cas, ep),
                forall|m: BitMove| old(v)@.contains(m) ==> v@.contains(m),
                forall|m: BitMove|
                    pseudo_legal(self.placement(), us, cas, ep, m) && mv_src(m) == src && mv_type(
                        m,
                    ) == MoveType::Normal && mv_dst(m) < dst ==> v@.contains(m),
            decreases 64 - dst,
        {
            if dst != src {
                let reach = match pc {
                    Piece::N => crate::geometry::knight_hit(src, dst),
                    Piece::B => crate::board::sq_bishop_reach(&self.sq, src, dst),
                    Piece::R => crate::board::sq_rook_reach(&self.sq, src, dst),
                    Piece::Q => {
                        let a = crate::board::sq_rook_reach(&self.sq, src, dst);
                        let b = crate::board::sq_bishop_reach(&self.sq, src, dst);
                        a || b
                    },
                    Piece::K => crate::geometry::king_hit(src, dst),
                    Piece::P => false,
                };
                proof {
                    crate::types::lemma_code_of(us, pc);
                    assert(reach == piece_reaches(self.placement(), src, dst));
                }
                if reach {
                    let tc = self.sq.code_at(dst);
                    let ok = tc == 0 || (crate::types::decode_player(tc) != us
                        && crate::types::decode_piece(tc) != Piece::K);
                    if ok {
                        let mv = BitMove::make(src, dst, 0, 0);
                        proof {
                            if tc != 0 {
                                crate::types::lemma_code_decode(tc);
                            }
                            assert(pseudo_legal(self.placement(), us, cas, ep, mv));
                            lemma_push_contains(v@, mv);
                            assert forall|m: BitMove|
                                pseudo_legal(self.placement(), us, cas, ep, m) && mv_src(m) == src
                                    && mv_type(m) == MoveType::Normal && mv_dst(m) == dst implies v@.push(
                                mv,
                            ).contains(m) by {
                                lemma_mv_data(m, mv);
                            }
                        }
                        v.push(mv);
                    } else {
                        proof {
                            if tc != 0 {
                                crate::types::lemma_code_decode(tc);
                            }
                            assert forall|m: BitMove|
                                !(pseudo_legal(self.placement(), us, cas, ep, m) && mv_src(m)
                                    == src && mv_type(m) == MoveType::Normal && mv_dst(m)
                                    == dst) by {}
                        }
                    }
                } else {
                    proof {
                        assert forall|m: BitMove|
                            !(pseudo_legal(self.placement(), us, cas, ep, m) && mv_src(m) == src
                                && mv_type(m) == MoveType::Normal && mv_dst(m) == dst) by {}
                    }
                }
            }
            dst = dst + 1;
        }
        proof {
            assert forall|m: BitMove|
                pseudo_legal(self.placement(), us, cas, ep, m) && mv_src(m) == src && mv_type(m)
                    == MoveType::Normal implies v@.contains(m) by {
                crate::rules::lemma_mv_bounds(m);
            }
        }
    }

    /// Appends the castles available to the side to move — rights
    /// intact, rook in place, path empty, king neither in check nor
    /// crossing an attacked square: exactly the pseudo-legal castles.
    #[verifier::rlimit(100)]
    fn gen_castles(&self, v: &mut Vec<BitMove>)
        requires
            self.wf(),
            all_pl(
                old(v)@,
                self.placement(),
                self.turn,
                self.state.castling,
                self.state.ep_square,
            ),
        ensures
            all_pl(
                final(v)@,
                self.placement(),
                self.turn,
                self.state.castling,
                self.state.ep_square,
            ),
            forall|m: BitMove| old(v)@.contains(m) ==> final(v)@.contains(m),
            forall|m: BitMove|
                pseudo_legal(self.placement(), self.turn, self.state.castling,
                self.state.ep_square, m) && mv_type(m) == MoveType::Castle ==> final(v)@.contains(
                    m,
                ),
    {
        let us = self.turn;
        let ghost cas = self.state.castling;
        let ghost ep = self.state.ep_square;
        let them = us.other_player();
        let from = crate::types::relative_square(us, 4);
        let king_code = crate::types::make_code(us, Piece::K);
        let rook_code = crate::types::make_code(us, Piece::R);
        if self.sq.code_at(from) != king_code {
            proof {
                assert forall|m: BitMove|
                    !(pseudo_legal(self.placement(), us, cas, ep, m) && mv_type(m)
                        == MoveType::Castle) by {
                    if pseudo_legal(self.placement(), us, cas, ep, m) && mv_type(m)
                        == MoveType::Castle {
                        crate::rules::lemma_mv_bounds(m);
                        crate::types::lemma_code_decode(self.placement()[from as int]);
                    }
                }
            }
            return ;
        }
        if self.in_check() {
            proof {
                assert forall|m: BitMove|
                    !(pseudo_legal(self.placement(), us, cas, ep, m) && mv_type(m)
                        == MoveType::Castle) by {}
            }
            return ;
        }
        // King side: f and g empty, neither attacked.
        if crate::castling::test_right(self.state.castling, us, crate::types::CastleType::KingSide)
            {
            let to = crate::types::relative_square(us, 7);
            let f5 = crate::types::relative_square(us, 5);
            let f6 = crate::types::relative_square(us, 6);
            if self.sq.code_at(to) == rook_code && self.sq.code_at(f5) == 0 && self.sq.code_at(f6)
                == 0 {
                let a5 = sq_attackers_of(&self.sq, them, f5);
                let a6 = sq_attackers_of(&self.sq, them, f6);
                let l5 = lsb_index(a5);
                let l6 = lsb_index(a6);
                if l5 == 64 && l6 == 64 {
                    let mv = BitMove::make(from, to, 3, 0);
                    proof {
                        assert forall|t: u8|
                            !is_checker(self.placement(), us.flip(), t, f5) && !is_checker(
                                self.placement(),
                                us.flip(),
                                t,
                                f6,
                            ) by {
                            if t < 64 {
                                assert(!bit64(a5, t) && !bit64(a6, t));
                            }
                        }
                        assert(pseudo_legal(self.placement(), us, cas, ep, mv));
                        lemma_push_contains(v@, mv);
                        assert forall|m: BitMove|
                            pseudo_legal(self.placement(), us, cas, ep, m) && mv_type(m)
                                == MoveType::Castle && mv_dst(m) == to implies v@.push(mv).contains(
                            m,
                        ) by {
                            crate::rules::lemma_mv_bounds(m);
                            lemma_mv_data(m, mv);
                        }
                    }
                    v.push(mv);
                } else {
                    proof {
                        if l5 < 64 {
                            assert(is_checker(self.placement(), us.flip(), l5, f5));
                        } else {
                            assert(is_checker(self.placement(), us.flip(), l6, f6));
                        }
                        assert forall|m: BitMove|
                            !(pseudo_legal(self.placement(), us, cas, ep, m) && mv_type(m)
                                == MoveType::Castle && mv_dst(m) == to) by {
                            if pseudo_legal(self.placement(), us, cas, ep, m) && mv_type(m)
                                == MoveType::Castle && mv_dst(m) == to {
                                crate::rules::lemma_mv_bounds(m);
                            }
                        }
                    }
                }
            } else {
                proof {
                    assert forall|m: BitMove|
                        !(pseudo_legal(self.placement(), us, cas, ep, m) && mv_type(m)
                            == MoveType::Castle && mv_dst(m) == crate::types::relative_square_spec(
                            us,
                            7,
                        )) by {
                        if pseudo_legal(self.placement(), us, cas, ep, m) && mv_type(m)
                            == MoveType::Castle && mv_dst(m) == crate::types::relative_square_spec(
                            us,
                            7,
                        ) {
                            crate::rules::lemma_mv_bounds(m);
                        }
                    }
                }
            }
        } else {
            proof {
                assert forall|m: BitMove|
                    !(pseudo_legal(self.placement(), us, cas, ep, m) && mv_type(m)
                        == MoveType::Castle && mv_dst(m) == crate::types::relative_square_spec(
                        us,
                        7,
                    )) by {}
            }
        }
        // Queen side: b, c and d empty, c and d not attacked.
        if crate::castling::test_right(self.state.castling, us, crate::types::CastleType::QueenSide)
            {
            let to = crate::types::relative_square(us, 0);
            let f1 = crate::types::relative_square(us, 1);
            let f2 = crate::types::relative_square(us, 2);
            let f3 = crate::types::relative_square(us, 3);
            if self.sq.code_at(to) == rook_code && self.sq.code_at(f1) == 0 && self.sq.code_at(f2)
                == 0 && self.sq.code_at(f3) == 0 {
                let a2 = sq_attackers_of(&self.sq, them, f2);
                let a3 = sq_attackers_of(&self.sq, them, f3);
                let l2 = lsb_index(a2);
                let l3 = lsb_index(a3);
                if l2 == 64 && l3 == 64 {
                    let mv = BitMove::make(from, to, 3, 0);
                    proof {
                        assert forall|t: u8|
                            !is_checker(self.placement(), us.flip(), t, f2) && !is_checker(
                                self.placement(),
                                us.flip(),
                                t,
                                f3,
                            ) by {
                            if t < 64 {
                                assert(!bit64(a2, t) && !bit64(a3, t));
                            }
                        }
                        assert(pseudo_legal(self.placement(), us, cas, ep, mv));
                        lemma_push_contains(v@, mv);
                        assert forall|m: BitMove|
                            pseudo_legal(self.placement(), us, cas, ep, m) && mv_type(m)
                                == MoveType::Castle && mv_dst(m) == to implies v@.push(mv).contains(
                            m,
                        ) by {
                            crate::rules::lemma_mv_bounds(m);
                            lemma_mv_data(m, mv);
                        }
                    }
                    v.push(mv);
                } else {
                    proof {
                        if l2 < 64 {
                            assert(is_checker(self.placement(), us.flip(), l2, f2));
                        } else {
                            assert(is_checker(self.placement(), us.flip(), l3, f3));
                        }
                        assert forall|m: BitMove|
                            !(pseudo_legal(self.placement(), us, cas, ep, m) && mv_type(m)
                                == MoveType::Castle && mv_dst(m) == to) by {
                            if pseudo_legal(self.placement(), us, cas, ep, m) && mv_type(m)
                                == MoveType::Castle && mv_dst(m) == to {
                                crate::rules::lemma_mv_bounds(m);
                            }
                        }
                    }
                }
            } else {
                proof {
                    assert forall|m: BitMove|
                        !(pseudo_legal(self.placement(), us, cas, ep, m) && mv_type(m)
                            == MoveType::Castle && mv_dst(m) == crate::types::relative_square_spec(
                            us,
                            0,
                        )) by {
                        if pseudo_legal(self.placement(), us, cas, ep, m) && mv_type(m)
                            == MoveType::Castle && mv_dst(m) == crate::types::relative_square_spec(
                            us,
                            0,
                        ) {
                            crate::rules::lemma_mv_bounds(m);
                        }
                    }
                }
            }
        } else {
            proof {
                assert forall|m: BitMove|
                    !(pseudo_legal(self.placement(), us, cas, ep, m) && mv_type(m)
                        == MoveType::Castle && mv_dst(m) == crate::types::relative_square_spec(
                        us,
                        0,
                    )) by {}
            }
        }
        proof {
            assert forall|m: BitMove|
                pseudo_legal(self.placement(), us, cas, ep, m) && mv_type(m) == MoveType::Castle
                    implies v@.contains(m) by {
                crate::rules::lemma_mv_bounds(m);
            }
        }
    }

    /// All pseudo-legal moves of the side to move: every move the
    /// movement rules allow, unfiltered for king safety, each exactly
    /// once per encoding.
    #[verifier::rlimit(100)]
    pub fn generate_pseudolegal_moves(&self) -> (r: Vec<BitMove>)
        requires
            self.wf(),
        ensures
            all_pl(r@, self.placement(), self.turn, self.state.castling, self.state.ep_square),
            forall|m: BitMove|
                pseudo_legal(self.placement(), self.turn, self.state.castling,
                self.state.ep_square, m) ==> r@.contains(m),
    {
        let us = self.turn;
        let ghost cas = self.state.castling;
        let ghost ep = self.state.ep_square;
        let mut v: Vec<BitMove> = Vec::new();
        let mut src: u8 = 0;
        proof {
            assert(crate::state::ep_sane(self.placement(), self.turn, self.state.ep_square));
        }
        while src < 64
            invariant
                self.wf(),
                us == self.turn,
                cas == self.state.castling,
                ep == self.state.ep_square,
                crate::state::ep_sane(self.placement(), self.turn, self.state.ep_square),
                all_pl(v@, self.placement(), us, cas, ep),
                forall|m: BitMove|
                    pseudo_legal(self.placement(), us, cas, ep, m) && mv_src(m) < src && mv_type(
                        m,
                    ) != MoveType::Castle ==> v@.contains(m),
            decreases 64 - src,
        {
            let code = self.sq.code_at(src);
            if code != 0 {
                let owner = crate::types::decode_player(code);
                if owner == us {
                    let pc = crate::types::decode_piece(code);
                    proof {
                        crate::types::lemma_code_decode(code);
                        assert(self.placement()[src as int] == code_of(us, pc));
                    }
                    if pc == Piece::P {
                        self.gen_pawn_moves(src, &mut v);
                    } else {
                        self.gen_piece_moves(src, pc, &mut v);
                        proof {
                            assert forall|m: BitMove|
                                pseudo_legal(self.placement(), us, cas, ep, m) && mv_src(m) == src
                                    && mv_type(m) != MoveType::Castle implies v@.contains(m) by {
                                crate::types::lemma_code_of(us, pc);
                            }
                        }
                    }
                } else {
                    proof {
                        assert forall|m: BitMove|
                            !(pseudo_legal(self.placement(), us, cas, ep, m) && mv_src(m)
                                == src) by {
                            crate::types::lemma_code_decode(code);
                        }
                    }
                }
            } else {
                proof {
                    assert forall|m: BitMove|
                        !(pseudo_legal(self.placement(), us, cas, ep, m) && mv_src(m) == src) by {}
                }
            }
            src = src + 1;
        }
        self.gen_castles(&mut v);
        proof {
            assert forall|m: BitMove|
                pseudo_legal(self.placement(), us, cas, ep, m) implies v@.contains(m) by {
                crate::rules::lemma_mv_bounds(m);
            }
        }
        v
    }

    /// The legal moves of the side to move: exactly the pseudo-legal
    /// moves that leave the mover's own king safe.
    #[verifier::rlimit(100)]
    pub fn generate_moves(&self) -> (r: Vec<BitMove>)
        requires
            self.wf(),
        ensures
            forall|i: int|
                0 <= i < r@.len() ==> pseudo_legal(self.placement(), self.turn,
                self.state.castling, self.state.ep_square, #[trigger] r@[i]) && king_safe(
                    self.placement(),
                    self.turn,
                    r@[i],
                ),
            forall|m: BitMove|
                pseudo_legal(self.placement(), self.turn, self.state.castling,
                self.state.ep_square, m) && king_safe(self.placement(), self.turn, m)
                    ==> r@.contains(m),
    {
        let us = self.turn;
        let ghost cas = self.state.castling;
        let ghost ep = self.state.ep_square;
        let pseudo = self.generate_pseudolegal_moves();
        let mut v: Vec<BitMove> = Vec::new();
        let mut i: usize = 0;
        let n = pseudo.len();
        while i < n
            invariant
                self.wf(),
                us == self.turn,
                cas == self.state.castling,
                ep == self.state.ep_square,
                i <= n,
                n == pseudo@.len(),
                all_pl(pseudo@, self.placement(), us, cas, ep),
                forall|j: int|
                    0 <= j < v@.len() ==> pseudo_legal(self.placement(), us, cas, ep,
                    #[trigger] v@[j]) && king_safe(self.placement(), us, v@[j]),
                forall|j: int|
                    0 <= j < i && king_safe(self.placement(), us, #[trigger] pseudo@[j])
                        ==> v@.contains(pseudo@[j]),
            decreases n - i,
        {
            let m = pseudo[i];
            if self.legal_move(m) {
                proof {
                    lemma_push_contains(v@, m);
                }
                v.push(m);
            }
            i = i + 1;
        }
        proof {
            assert forall|m: BitMove|
                pseudo_legal(self.placement(), us, cas, ep, m) && king_safe(
                    self.placement(),
                    us,
                    m,
                ) implies v@.contains(m) by {
                assert(pseudo@.contains(m));
                let j = choose|j: int| 0 <= j < pseudo@.len() && pseudo@[j] == m;
                assert(v@.contains(pseudo@[j]));
            }
        }
        v
    }

    /// The legal moves of one family: exactly the legal moves that
    /// belong to the asked family.  `All`, `Evasions` and `NonEvasions`
    /// coincide with the full legal list — when in check the legal moves
    /// are exactly the evasions.  `QuietChecks` must not be asked for
    /// while in check.
    pub fn generate_moves_of_type(&self, gen_type: GenTypes) -> (r: Vec<BitMove>)
        requires
            self.wf(),
            gen_type == GenTypes::QuietChecks ==> self.state.checkers_bb == 0,
        ensures
            forall|i: int|
                0 <= i < r@.len() ==> pseudo_legal(self.placement(), self.turn,
                self.state.castling, self.state.ep_square, #[trigger] r@[i]) && king_safe(
                    self.placement(),
                    self.turn,
                    r@[i],
                ) && in_family(self.placement(), self.turn, r@[i], gen_type),
            forall|m: BitMove|
                pseudo_legal(self.placement(), self.turn, self.state.castling,
                self.state.ep_square, m) && king_safe(self.placement(), self.turn, m) && in_family(
                    self.placement(),
                    self.turn,
                    m,
                    gen_type,
                ) ==> r@.contains(m),
    {
        let all = self.generate_moves();
        proof {
            assert(all_pl(
                all@,
                self.placement(),
                self.turn,
                self.state.castling,
                self.state.ep_square,
            ));
        }
        let r = self.filter_moves(all, gen_type);
        proof {
            assert forall|m: BitMove|
                pseudo_legal(self.placement(), self.turn, self.state.castling,
                self.state.ep_square, m) && king_safe(self.placement(), self.turn, m) && in_family(
                    self.placement(),
                    self.turn,
                    m,
                    gen_type,
                ) implies r@.contains(m) by {}
        }
        r
    }

    /// The pseudo-legal moves of one family, unfiltered for king safety:
    /// exactly the pseudo-legal moves that belong to the asked family.
    pub fn generate_pseudolegal_moves_of_type(&self, gen_type: GenTypes) -> (r: Vec<BitMove>)
        requires
            self.wf(),
            gen_type == GenTypes::QuietChecks ==> self.state.checkers_bb == 0,
        ensures
            forall|i: int|
                0 <= i < r@.len() ==> pseudo_legal(self.placement(), self.turn,
                self.state.castling, self.state.ep_square, #[trigger] r@[i]) && in_family(
                    self.placement(),
                    self.turn,
                    r@[i],
                    gen_type,
                ),
            forall|m: BitMove|
                pseudo_legal(self.placement(), self.turn, self.state.castling,
                self.state.ep_square, m) && in_family(self.placement(), self.turn, m, gen_type)
                    ==> r@.contains(m),
    {
        let all = self.generate_pseudolegal_moves();
        self.filter_moves(all, gen_type)
    }

    /// Keeps the moves of the asked family: exactly the elements of
    /// `all` that belong to it.
    #[verifier::rlimit(100)]
    fn filter_moves(&self, all: Vec<BitMove>, gen_type: GenTypes) -> (r: Vec<BitMove>)
        requires
            self.wf(),
            all_pl(
                all@,
                self.placement(),
                self.turn,
                self.state.castling,
                self.state.ep_square,
            ),
        ensures
            forall|i: int|
                0 <= i < r@.len() ==> all@.contains(#[trigger] r@[i]) && in_family(
                    self.placement(),
                    self.turn,
                    r@[i],
                    gen_type,
                ),
            forall|m: BitMove|
                all@.contains(m) && in_family(self.placement(), self.turn, m, gen_type)
                    ==> r@.contains(m),
    {
        let us = self.turn;
        let ghost cas = self.state.castling;
        let ghost ep = self.state.ep_square;
        match gen_type {
            GenTypes::All | GenTypes::Evasions | GenTypes::NonEvasions => {
                proof {
                    assert(forall|i: int| 0 <= i < all@.len() ==> all@.contains(#[trigger] all@[i]));
                }
                all
            },
            GenTypes::Captures | GenTypes::Quiets | GenTypes::QuietChecks => {
                let want_capture = match gen_type {
                    GenTypes::Captures => true,
                    _ => false,
                };
                let want_check = match gen_type {
                    GenTypes::QuietChecks => true,
                    _ => false,
                };
                let mut v: Vec<BitMove> = Vec::new();
                let mut i: usize = 0;
                let n = all.len();
                while i < n
                    invariant
                        self.wf(),
                        us == self.turn,
                        cas == self.state.castling,
                        ep == self.state.ep_square,
                        i <= n,
                        n == all@.len(),
                        want_capture == (gen_type == GenTypes::Captures),
                        want_check == (gen_type == GenTypes::QuietChecks),
                        gen_type == GenTypes::Captures || gen_type == GenTypes::Quiets || gen_type
                            == GenTypes::QuietChecks,
                        all_pl(all@, self.placement(), us, cas, ep),
                        forall|j: int|
                            0 <= j < v@.len() ==> all@.contains(#[trigger] v@[j]) && in_family(
                                self.placement(),
                                us,
                                v@[j],
                                gen_type,
                            ),
                        forall|j: int|
                            0 <= j < i && in_family(self.placement(), us, #[trigger] all@[j],
                            gen_type) ==> v@.contains(all@[j]),
                    decreases n - i,
                {
                    let m = all[i];
                    let cap = self.is_capture(m);
                    let keep = if want_capture {
                        cap
                    } else if cap {
                        false
                    } else if want_check {
                        self.gives_check(m)
                    } else {
                        true
                    };
                    if keep {
                        proof {
                            lemma_push_contains(v@, m);
                            assert(all@.contains(all@[i as int]));
                        }
                        v.push(m);
                    }
                    i = i + 1;
                }
                v
            },
        }
    }

    /// Whether a move captures something.
    fn is_capture(&self, m: BitMove) -> (r: bool)
        requires
            self.wf(),
            move_ok(self.placement(), self.turn, m, self.state.ep_square),
        ensures
            r == (captured_code(self.placement(), self.turn, m) != 0),
    {
        proof {
            crate::rules::lemma_mv_bounds(m);
        }
        let mt = m.move_type();
        if mt == MoveType::EnPassant {
            true
        } else if mt == MoveType::Castle {
            false
        } else {
            self.sq.code_at(m.get_dest()) != 0
        }
    }

    /// Finds the legal move written as `uci_move` and applies it:
    /// returns true, and advances the board by exactly that move —
    /// pushing one undoable record — when some legal move has that
    /// notation; otherwise returns false and changes nothing.
    #[verifier::rlimit(100)]
    pub fn apply_uci_move(&mut self, uci_move: &str) -> (r: bool)
        requires
            old(self).wf(),
            old(self).half_moves < 65535,
            old(self).depth < 65535,
            old(self).state.ply < 65535,
            old(self).state.rule_50 < 32767,
        ensures
            final(self).wf(),
            r == exists|m: BitMove|
                #![auto]
                pseudo_legal(
                    old(self).placement(),
                    old(self).turn,
                    old(self).state.castling,
                    old(self).state.ep_square,
                    m,
                ) && king_safe(old(self).placement(), old(self).turn, m) && crate::moves::mv_str(m)
                    == uci_move@,
            !r ==> *final(self) == *old(self),
            r ==> exists|m: BitMove|
                #![auto]
                pseudo_legal(
                    old(self).placement(),
                    old(self).turn,
                    old(self).state.castling,
                    old(self).state.ep_square,
                    m,
                ) && king_safe(old(self).placement(), old(self).turn, m) && crate::moves::mv_str(m)
                    == uci_move@ && final(self).placement() == apply_placement(
                    old(self).placement(),
                    old(self).turn,
                    m,
                ) && final(self).turn == old(self).turn.flip()
                    && final(self).half_moves == old(self).half_moves + 1
                    && final(self).depth == old(self).depth + 1
                    && final(self).state.prev is Some
                    && *final(self).state.prev->Some_0 == *old(self).state
                    && final(self).state.prev_move == m,
    {
        let ghost p0 = old(self).placement();
        let ghost us = old(self).turn;
        let ghost cas = old(self).state.castling;
        let ghost ep = old(self).state.ep_square;
        let target: String = uci_move.to_owned();
        let moves = self.generate_moves();
        let mut i: usize = 0;
        let n = moves.len();
        while i < n
            invariant
                self.wf(),
                *self == *old(self),
                p0 == self.placement(),
                us == self.turn,
                cas == self.state.castling,
                ep == self.state.ep_square,
                target@ == uci_move@,
                i <= n,
                n == moves@.len(),
                forall|j: int|
                    0 <= j < moves@.len() ==> pseudo_legal(p0, us, cas, ep, #[trigger] moves@[j])
                        && king_safe(p0, us, moves@[j]),
                forall|m: BitMove|
                    pseudo_legal(p0, us, cas, ep, m) && king_safe(p0, us, m) ==> moves@.contains(m),
                forall|j: int| 0 <= j < i ==> crate::moves::mv_str(#[trigger] moves@[j])
                    != uci_move@,
                old(self).half_moves < 65535,
                old(self).depth < 65535,
                old(self).state.ply < 65535,
                old(self).state.rule_50 < 32767,
            decreases n - i,
        {
            let m = moves[i];
            let st = m.stringify();
            if st.eq(&target) {
                self.apply_move(m);
                proof {
                    assert(pseudo_legal(p0, us, cas, ep, m) && king_safe(p0, us, m)
                        && crate::moves::mv_str(m) == uci_move@);
                }
                return true;
            }
            i = i + 1;
        }
        proof {
            assert forall|m: BitMove|
                !(pseudo_legal(p0, us, cas, ep, m) && king_safe(p0, us, m)
                    && crate::moves::mv_str(m) == uci_move@) by {
                if pseudo_legal(p0, us, cas, ep, m) && king_safe(p0, us, m) && crate::moves::mv_str(
                    m,
                ) == uci_move@ {
                    assert(moves@.contains(m));
                    let j = choose|j: int| 0 <= j < moves@.len() && moves@[j] == m;
                    assert(crate::moves::mv_str(moves@[j]) != uci_move@);
                }
            }
        }
        false
    }

    /// Whether the side to move has no legal move at all.
    #[verifier::rlimit(100)]
    fn no_legal_moves(&self) -> (r: bool)
        requires
            self.wf(),
        ensures
            r == !exists|m: BitMove|
                #[trigger] pseudo_legal(
                    self.placement(),
                    self.turn,
                    self.state.castling,
                    self.state.ep_square,
                    m,
                ) && king_safe(self.placement(), self.turn, m),
    {
        let moves = self.generate_moves();
        proof {
            if moves@.len() > 0 {
                assert(pseudo_legal(
                    self.placement(),
                    self.turn,
                    self.state.castling,
                    self.state.ep_square,
                    moves@[0],
                ) && king_safe(self.placement(), self.turn, moves@[0]));
            } else {
                assert forall|m: BitMove|
                    !(pseudo_legal(
                        self.placement(),
                        self.turn,
                        self.state.castling,
                        self.state.ep_square,
                        m,
                    ) && king_safe(self.placement(), self.turn, m)) by {
                    if pseudo_legal(
                        self.placement(),
                        self.turn,
                        self.state.castling,
                        self.state.ep_square,
                        m,
                    ) && king_safe(self.placement(), self.turn, m) {
                        assert(moves@.contains(m));
                    }
                }
            }
        }
        moves.len() == 0
    }

    /// Whether the side to move is checkmated: in check, with no legal
    /// move at all.
    pub fn checkmate(&self) -> (r: bool)
        requires
            self.wf(),
        ensures
            r == (attacked_by(
                self.placement(),
                self.turn.flip(),
                ksq_of(self.placement(), self.turn),
            ) && !exists|m: BitMove|
                #[trigger] pseudo_legal(
                    self.placement(),
                    self.turn,
                    self.state.castling,
                    self.state.ep_square,
                    m,
                ) && king_safe(self.placement(), self.turn, m)),
    {
        let chk = self.in_check();
        if !chk {
            return false;
        }
        self.no_legal_moves()
    }

    /// Whether the side to move is stalemated: not in check, with no
    /// legal move at all.
    pub fn stalemate(&self) -> (r: bool)
        requires
            self.wf(),
        ensures
            r == (!attacked_by(
                self.placement(),
                self.turn.flip(),
                ksq_of(self.placement(), self.turn),
            ) && !exists|m: BitMove|
                #[trigger] pseudo_legal(
                    self.placement(),
                    self.turn,
                    self.state.castling,
                    self.state.ep_square,
                    m,
                ) && king_safe(self.placement(), self.turn, m)),
    {
        let chk = self.in_check();
        if chk {
            return false;
        }
        self.no_legal_moves()
    }
}

} // verus!
