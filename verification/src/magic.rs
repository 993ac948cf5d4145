//! Attack-table queries, bundled the way engine code likes to consume
//! them: a handle whose methods answer "which squares does this piece
//! reach from here" as masks.  The masks are computed on demand from
//! the geometry predicates, so every answer is characterised square by
//! square.

use vstd::prelude::*;

use crate::bits::bit64;
use crate::geometry::{
    bishop_att, collinear, king_geom, knight_geom, pawn_att_geom, rook_att, strictly_between,
};
use crate::types::Player;

verus! {

/// A handle for the attack-table queries.
#[derive(Clone, Copy, PartialEq, Eq, Structural, Debug)]
pub struct MagicHelper {
    /// Present only to give the handle a size.
    pub ready: bool,
}

impl MagicHelper {
    /// A fresh handle.
    pub fn new() -> (r: MagicHelper)
        ensures
            r.ready,
    {
        MagicHelper { ready: true }
    }

    /// Mask of the squares a knight on `s` reaches.
    pub fn knight_moves(&self, s: u8) -> (r: u64)
        requires
            s < 64,
        ensures
            forall|t: u8| t < 64 ==> (#[trigger] bit64(r, t) <==> knight_geom(s, t)),
    {
        mask_by_knight(s)
    }

    /// Mask of the squares a king on `s` reaches.
    pub fn king_moves(&self, s: u8) -> (r: u64)
        requires
            s < 64,
        ensures
            forall|t: u8| t < 64 ==> (#[trigger] bit64(r, t) <==> king_geom(s, t)),
    {
        mask_by_king(s)
    }

    /// Mask of the squares a pawn of `c` on `s` attacks.
    pub fn pawn_attacks_from(&self, s: u8, c: Player) -> (r: u64)
        requires
            s < 64,
        ensures
            forall|t: u8| t < 64 ==> (#[trigger] bit64(r, t) <==> pawn_att_geom(c, s, t)),
    {
        mask_by_pawn(s, c)
    }

    /// Mask of the squares a rook on `s` reaches under occupancy `occ`.
    pub fn rook_moves(&self, occ: u64, s: u8) -> (r: u64)
        requires
            s < 64,
        ensures
            forall|t: u8| t < 64 ==> (#[trigger] bit64(r, t) <==> rook_att(occ, s, t)),
    {
        mask_by_rook(occ, s)
    }

    /// Mask of the squares a bishop on `s` reaches under occupancy `occ`.
    pub fn bishop_moves(&self, occ: u64, s: u8) -> (r: u64)
        requires
            s < 64,
        ensures
            forall|t: u8| t < 64 ==> (#[trigger] bit64(r, t) <==> bishop_att(occ, s, t)),
    {
        mask_by_bishop(occ, s)
    }

    /// Mask of the squares a queen on `s` reaches under occupancy `occ`.
    pub fn queen_moves(&self, occ: u64, s: u8) -> (r: u64)
        requires
            s < 64,
        ensures
            forall|t: u8|
                t < 64 ==> (#[trigger] bit64(r, t) <==> (rook_att(occ, s, t) || bishop_att(
                    occ,
                    s,
                    t,
                ))),
    {
        let a = mask_by_rook(occ, s);
        let b = mask_by_bishop(occ, s);
        proof {
            assert forall|t: u8| t < 64 implies (#[trigger] bit64(a | b, t) <==> (bit64(a, t)
                || bit64(b, t))) by {
                crate::bits::lemma_bit_or(a, b, t);
            }
        }
        a | b
    }

    /// Mask of the squares strictly between `a` and `b`.
    pub fn between_bb(&self, a: u8, b: u8) -> (r: u64)
        requires
            a < 64,
            b < 64,
        ensures
            forall|c: u8| c < 64 ==> (#[trigger] bit64(r, c) <==> strictly_between(a, b, c)),
    {
        crate::geometry::between_bb(a, b)
    }

    /// Whether three squares share one line.
    pub fn aligned(&self, a: u8, b: u8, c: u8) -> (r: bool)
        requires
            a < 64,
            b < 64,
            c < 64,
        ensures
            r == collinear(a, b, c),
    {
        crate::geometry::is_collinear(a, b, c)
    }

    /// Chebyshev distance of two squares.
    pub fn distance_of_sqs(&self, a: u8, b: u8) -> (r: u8)
        requires
            a < 64,
            b < 64,
        ensures
            r as int == crate::types::sq_distance(a, b),
    {
        crate::types::distance_of_sqs(a, b)
    }
}

impl crate::board::Board {
    /// A handle for the attack-table queries.
    pub fn magic_helper(&self) -> (r: MagicHelper)
        ensures
            r.ready,
    {
        MagicHelper::new()
    }
}

fn mask_by_knight(s: u8) -> (r: u64)
    requires
        s < 64,
    ensures
        forall|t: u8| t < 64 ==> (#[trigger] bit64(r, t) <==> knight_geom(s, t)),
{
    let mut r: u64 = 0;
    let mut t: u8 = 0;
    proof {
        assert forall|j: u8| j < 64 implies !bit64(0u64, j) by {
            crate::bits::lemma_bit_empty(j);
        }
    }
    while t < 64
        invariant
            t <= 64,
            s < 64,
            forall|j: u8| j < t ==> (#[trigger] bit64(r, j) <==> knight_geom(s, j)),
            forall|j: u8| t <= j < 64 ==> !bit64(r, j),
        decreases 64 - t,
    {
        if crate::geometry::knight_hit(s, t) {
            let m: u64 = 1u64 << (t as u64);
            proof {
                assert forall|j: u8| j < 64 implies (#[trigger] bit64(r | m, j) <==> (bit64(r, j)
                    || j == t)) by {
                    crate::bits::lemma_bit_or(r, m, j);
                    crate::bits::lemma_bit_single(t, j);
                }
            }
            r = r | m;
        }
        t = t + 1;
    }
    r
}

fn mask_by_king(s: u8) -> (r: u64)
    requires
        s < 64,
    ensures
        forall|t: u8| t < 64 ==> (#[trigger] bit64(r, t) <==> king_geom(s, t)),
{
    let mut r: u64 = 0;
    let mut t: u8 = 0;
    proof {
        assert forall|j: u8| j < 64 implies !bit64(0u64, j) by {
            crate::bits::lemma_bit_empty(j);
        }
    }
    while t < 64
        invariant
            t <= 64,
            s < 64,
            forall|j: u8| j < t ==> (#[trigger] bit64(r, j) <==> king_geom(s, j)),
            forall|j: u8| t <= j < 64 ==> !bit64(r, j),
        decreases 64 - t,
    {
        if crate::geometry::king_hit(s, t) {
            let m: u64 = 1u64 << (t as u64);
            proof {
                assert forall|j: u8| j < 64 implies (#[trigger] bit64(r | m, j) <==> (bit64(r, j)
                    || j == t)) by {
                    crate::bits::lemma_bit_or(r, m, j);
                    crate::bits::lemma_bit_single(t, j);
                }
            }
            r = r | m;
        }
        t = t + 1;
    }
    r
}

fn mask_by_pawn(s: u8, c: Player) -> (r: u64)
    requires
        s < 64,
    ensures
        forall|t: u8| t < 64 ==> (#[trigger] bit64(r, t) <==> pawn_att_geom(c, s, t)),
{
    let mut r: u64 = 0;
    let mut t: u8 = 0;
    proof {
        assert forall|j: u8| j < 64 implies !bit64(0u64, j) by {
            crate::bits::lemma_bit_empty(j);
        }
    }
    while t < 64
        invariant
            t <= 64,
            s < 64,
            forall|j: u8| j < t ==> (#[trigger] bit64(r, j) <==> pawn_att_geom(c, s, j)),
            forall|j: u8| t <= j < 64 ==> !bit64(r, j),
        decreases 64 - t,
    {
        if crate::geometry::pawn_hit(c, s, t) {
            let m: u64 = 1u64 << (t as u64);
            proof {
                assert forall|j: u8| j < 64 implies (#[trigger] bit64(r | m, j) <==> (bit64(r, j)
                    || j == t)) by {
                    crate::bits::lemma_bit_or(r, m, j);
                    crate::bits::lemma_bit_single(t, j);
                }
            }
            r = r | m;
        }
        t = t + 1;
    }
    r
}

fn mask_by_rook(occ: u64, s: u8) -> (r: u64)
    requires
        s < 64,
    ensures
        forall|t: u8| t < 64 ==> (#[trigger] bit64(r, t) <==> rook_att(occ, s, t)),
{
    let mut r: u64 = 0;
    let mut t: u8 = 0;
    proof {
        assert forall|j: u8| j < 64 implies !bit64(0u64, j) by {
            crate::bits::lemma_bit_empty(j);
        }
    }
    while t < 64
        invariant
            t <= 64,
            s < 64,
            forall|j: u8| j < t ==> (#[trigger] bit64(r, j) <==> rook_att(occ, s, j)),
            forall|j: u8| t <= j < 64 ==> !bit64(r, j),
        decreases 64 - t,
    {
        if crate::geometry::rook_hit(occ, s, t) {
            let m: u64 = 1u64 << (t as u64);
            proof {
                assert forall|j: u8| j < 64 implies (#[trigger] bit64(r | m, j) <==> (bit64(r, j)
                    || j == t)) by {
                    crate::bits::lemma_bit_or(r, m, j);
                    crate::bits::lemma_bit_single(t, j);
                }
            }
            r = r | m;
        }
        t = t + 1;
    }
    r
}

fn mask_by_bishop(occ: u64, s: u8) -> (r: u64)
    requires
        s < 64,
    ensures
        forall|t: u8| t < 64 ==> (#[trigger] bit64(r, t) <==> bishop_att(occ, s, t)),
{
    let mut r: u64 = 0;
    let mut t: u8 = 0;
    proof {
        assert forall|j: u8| j < 64 implies !bit64(0u64, j) by {
            crate::bits::lemma_bit_empty(j);
        }
    }
    while t < 64
        invariant
            t <= 64,
            s < 64,
            forall|j: u8| j < t ==> (#[trigger] bit64(r, j) <==> bishop_att(occ, s, j)),
            forall|j: u8| t <= j < 64 ==> !bit64(r, j),
        decreases 64 - t,
    {
        if crate::geometry::bishop_hit(occ, s, t) {
            let m: u64 = 1u64 << (t as u64);
            proof {
                assert forall|j: u8| j < 64 implies (#[trigger] bit64(r | m, j) <==> (bit64(r, j)
                    || j == t)) by {
                    crate::bits::lemma_bit_or(r, m, j);
                    crate::bits::lemma_bit_single(t, j);
                }
            }
            r = r | m;
        }
        t = t + 1;
    }
    r
}

} // verus!
