//! The redundant square data of a position: twelve per-piece masks,
//! three occupancy masks, and the square-to-piece table, kept congruent
//! at every step.  The table is the source of truth; `cong` states that
//! every mask agrees with it bit for bit.

use vstd::prelude::*;

use crate::bits::bit64;
use crate::locations::{PieceLocations, placement_wf};
use crate::types::{Piece, Player, code_is_of, code_of};

verus! {

/// Masks and table of one position.
pub struct Squares {
    /// Mask of each placement code, at index `code - 1`.
    pub bbs: Vec<u64>,
    /// Mask of all white pieces.
    pub occ_w: u64,
    /// Mask of all black pieces.
    pub occ_b: u64,
    /// Mask of all pieces.
    pub occ_all: u64,
    /// The square-to-piece table.
    pub locs: PieceLocations,
}

impl View for Squares {
    type V = Seq<u8>;

    closed spec fn view(&self) -> Seq<u8> {
        self.locs@
    }
}

impl Squares {
    /// Every mask agrees with the table, square by square.
    pub open spec fn cong(&self) -> bool {
        placement_wf(self@) && self.bbs@.len() == 12 && (forall|k: int, s: u8|
            0 <= k < 12 && s < 64 ==> (#[trigger] bit64(self.bbs@[k], s) <==> self@[s as int] == k
                + 1)) && (forall|s: u8|
            s < 64 ==> (#[trigger] bit64(self.occ_w, s) <==> code_is_of(
                self@[s as int],
                Player::White,
            ))) && (forall|s: u8|
            s < 64 ==> (#[trigger] bit64(self.occ_b, s) <==> code_is_of(
                self@[s as int],
                Player::Black,
            ))) && (forall|s: u8| s < 64 ==> (#[trigger] bit64(self.occ_all, s) <==> self@[s as int]
            != 0))
    }

    /// An empty position.
    pub fn blank() -> (r: Squares)
        ensures
            r.cong(),
            forall|s: int| 0 <= s < 64 ==> #[trigger] r@[s] == 0,
    {
        let mut bbs: Vec<u64> = Vec::new();
        let mut i: usize = 0;
        while i < 12
            invariant
                bbs@.len() == i,
                i <= 12,
                forall|j: int| 0 <= j < i ==> #[trigger] bbs@[j] == 0,
            decreases 12 - i,
        {
            bbs.push(0);
            i = i + 1;
        }
        let r = Squares { bbs, occ_w: 0, occ_b: 0, occ_all: 0, locs: PieceLocations::blank() };
        proof {
            assert forall|j: u8| j < 64 implies !bit64(0u64, j) by {
                crate::bits::lemma_bit_empty(j);
            }
        }
        r
    }

    /// An exact copy.
    pub fn duplicate(&self) -> (r: Squares)
        requires
            self.cong(),
        ensures
            r.cong(),
            r@ == self@,
            r.bbs@ == self.bbs@,
            r.occ_w == self.occ_w,
            r.occ_b == self.occ_b,
            r.occ_all == self.occ_all,
    {
        let mut bbs: Vec<u64> = Vec::new();
        let mut i: usize = 0;
        while i < 12
            invariant
                bbs@.len() == i,
                i <= 12,
                self.bbs@.len() == 12,
                forall|j: int| 0 <= j < i ==> #[trigger] bbs@[j] == self.bbs@[j],
            decreases 12 - i,
        {
            let b = self.bbs[i];
            bbs.push(b);
            i = i + 1;
        }
        proof {
            assert(bbs@ =~= self.bbs@);
        }
        Squares {
            bbs,
            occ_w: self.occ_w,
            occ_b: self.occ_b,
            occ_all: self.occ_all,
            locs: self.locs.duplicate(),
        }
    }

    /// Puts `c`'s piece `pc` on the empty square `s`.
    pub fn put(&mut self, s: u8, c: Player, pc: Piece)
        requires
            old(self).cong(),
            s < 64,
            old(self)@[s as int] == 0,
        ensures
            final(self).cong(),
            final(self)@ == old(self)@.update(s as int, code_of(c, pc)),
    {
        let code = crate::types::make_code(c, pc);
        let m: u64 = 1u64 << (s as u64);
        let idx = (code - 1) as usize;
        let old_bb = self.bbs[idx];
        self.bbs.set(idx, old_bb | m);
        match c {
            Player::White => {
                self.occ_w = self.occ_w | m;
            },
            Player::Black => {
                self.occ_b = self.occ_b | m;
            },
        }
        self.occ_all = self.occ_all | m;
        self.locs.place(s, c, pc);
        proof {
            assert forall|k: int, j: u8| 0 <= k < 12 && j < 64 implies (#[trigger] bit64(
                self.bbs@[k],
                j,
            ) <==> self@[j as int] == k + 1) by {
                crate::bits::lemma_bit_single(s, j);
                assert(bit64(old(self).bbs@[k], j) <==> old(self)@[j as int] == k + 1);
                if k == idx as int {
                    crate::bits::lemma_bit_or(old_bb, m, j);
                }
            }
            assert forall|j: u8| j < 64 implies (#[trigger] bit64(self.occ_w, j) <==> code_is_of(
                self@[j as int],
                Player::White,
            )) by {
                crate::bits::lemma_bit_single(s, j);
                assert(bit64(old(self).occ_w, j) <==> code_is_of(old(self)@[j as int],
                Player::White));
                crate::bits::lemma_bit_or(old(self).occ_w, m, j);
            }
            assert forall|j: u8| j < 64 implies (#[trigger] bit64(self.occ_b, j) <==> code_is_of(
                self@[j as int],
                Player::Black,
            )) by {
                crate::bits::lemma_bit_single(s, j);
                assert(bit64(old(self).occ_b, j) <==> code_is_of(old(self)@[j as int],
                Player::Black));
                crate::bits::lemma_bit_or(old(self).occ_b, m, j);
            }
            assert forall|j: u8| j < 64 implies (#[trigger] bit64(self.occ_all, j) <==> self@[j as int]
                != 0) by {
                crate::bits::lemma_bit_single(s, j);
                assert(bit64(old(self).occ_all, j) <==> old(self)@[j as int] != 0);
                crate::bits::lemma_bit_or(old(self).occ_all, m, j);
            }
        }
    }

    /// Empties the occupied square `s`.
    pub fn take(&mut self, s: u8)
        requires
            old(self).cong(),
            s < 64,
            old(self)@[s as int] != 0,
        ensures
            final(self).cong(),
            final(self)@ == old(self)@.update(s as int, 0u8),
    {
        let code = self.locs.code_at(s);
        let m: u64 = 1u64 << (s as u64);
        let idx = (code - 1) as usize;
        let old_bb = self.bbs[idx];
        self.bbs.set(idx, old_bb ^ m);
        if code <= 6 {
            self.occ_w = self.occ_w ^ m;
        } else {
            self.occ_b = self.occ_b ^ m;
        }
        self.occ_all = self.occ_all ^ m;
        self.locs.remove(s);
        proof {
            assert forall|k: int, j: u8| 0 <= k < 12 && j < 64 implies (#[trigger] bit64(
                self.bbs@[k],
                j,
            ) <==> self@[j as int] == k + 1) by {
                crate::bits::lemma_bit_single(s, j);
                assert(bit64(old(self).bbs@[k], j) <==> old(self)@[j as int] == k + 1);
                if k == idx as int {
                    crate::bits::lemma_bit_xor(old_bb, m, j);
                }
            }
            assert forall|j: u8| j < 64 implies (#[trigger] bit64(self.occ_w, j) <==> code_is_of(
                self@[j as int],
                Player::White,
            )) by {
                crate::bits::lemma_bit_single(s, j);
                assert(bit64(old(self).occ_w, j) <==> code_is_of(old(self)@[j as int],
                Player::White));
                crate::bits::lemma_bit_xor(old(self).occ_w, m, j);
            }
            assert forall|j: u8| j < 64 implies (#[trigger] bit64(self.occ_b, j) <==> code_is_of(
                self@[j as int],
                Player::Black,
            )) by {
                crate::bits::lemma_bit_single(s, j);
                assert(bit64(old(self).occ_b, j) <==> code_is_of(old(self)@[j as int],
                Player::Black));
                crate::bits::lemma_bit_xor(old(self).occ_b, m, j);
            }
            assert forall|j: u8| j < 64 implies (#[trigger] bit64(self.occ_all, j) <==> self@[j as int]
                != 0) by {
                crate::bits::lemma_bit_single(s, j);
                assert(bit64(old(self).occ_all, j) <==> old(self)@[j as int] != 0);
                crate::bits::lemma_bit_xor(old(self).occ_all, m, j);
            }
        }
    }

    /// The placement code on square `s`.
    pub fn code_at(&self, s: u8) -> (r: u8)
        requires
            self.cong(),
            s < 64,
        ensures
            r == self@[s as int],
            r <= 12,
    {
        self.locs.code_at(s)
    }


    /// The piece, if any, on square `s`.
    pub fn piece_at(&self, s: u8) -> (r: Option<crate::types::Piece>)
        requires
            self.cong(),
            s < 64,
        ensures
            r == (if self@[s as int] == 0 {
                Option::<crate::types::Piece>::None
            } else {
                Option::Some(crate::types::code_piece(self@[s as int]))
            }),
    {
        self.locs.piece_at(s)
    }

    /// The player, if any, on square `s`.
    pub fn player_at(&self, s: u8) -> (r: Option<Player>)
        requires
            self.cong(),
            s < 64,
        ensures
            r == (if self@[s as int] == 0 {
                Option::<Player>::None
            } else {
                Option::Some(crate::types::code_player(self@[s as int]))
            }),
    {
        self.locs.player_at(s)
    }

    /// The piece of player `c` on square `s`, if `c` owns what stands
    /// there.
    pub fn piece_at_for(&self, s: u8, c: Player) -> (r: Option<crate::types::Piece>)
        requires
            self.cong(),
            s < 64,
        ensures
            r == (if code_is_of(self@[s as int], c) {
                Option::Some(crate::types::code_piece(self@[s as int]))
            } else {
                Option::<crate::types::Piece>::None
            }),
    {
        self.locs.piece_at_for_player(s, c)
    }

    /// A copy of the square-to-piece table.
    pub fn locations_copy(&self) -> (r: crate::locations::PieceLocations)
        requires
            self.cong(),
        ensures
            r@ == self@,
    {
        self.locs.duplicate()
    }

    /// The mask of `c`'s pieces of kind `pc`.
    pub fn piece_mask(&self, c: Player, pc: Piece) -> (r: u64)
        requires
            self.cong(),
        ensures
            forall|s: u8| s < 64 ==> (#[trigger] bit64(r, s) <==> self@[s as int] == code_of(c, pc)),
    {
        let code = crate::types::make_code(c, pc);
        self.bbs[(code - 1) as usize]
    }
}

} // verus!
