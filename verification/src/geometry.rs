//! Board geometry: lines, betweenness, and the attack reach of each
//! piece kind, stated arithmetically over square coordinates and an
//! occupancy mask.  Executable tests mirror the predicates directly.

use vstd::prelude::*;

use crate::bits::bit64;
use crate::types::{Player, rank_of, file_of};

verus! {

/// Two distinct squares on one rank.
pub open spec fn same_rank_line(a: u8, b: u8) -> bool {
    a != b && rank_of(a) == rank_of(b)
}

/// Two distinct squares on one file.
pub open spec fn same_file_line(a: u8, b: u8) -> bool {
    a != b && file_of(a) == file_of(b)
}

/// Two distinct squares on one rising diagonal.
pub open spec fn same_diag_line(a: u8, b: u8) -> bool {
    a != b && rank_of(a) - file_of(a) == rank_of(b) - file_of(b)
}

/// Two distinct squares on one falling diagonal.
pub open spec fn same_anti_line(a: u8, b: u8) -> bool {
    a != b && rank_of(a) + file_of(a) == rank_of(b) + file_of(b)
}

/// Two distinct squares on a rook line.
pub open spec fn rook_line(a: u8, b: u8) -> bool {
    same_rank_line(a, b) || same_file_line(a, b)
}

/// Two distinct squares on a bishop line.
pub open spec fn bishop_line(a: u8, b: u8) -> bool {
    same_diag_line(a, b) || same_anti_line(a, b)
}

/// Square `c` lies strictly between `a` and `b` on the line they share.
pub open spec fn strictly_between(a: u8, b: u8, c: u8) -> bool {
    (same_rank_line(a, b) && rank_of(c) == rank_of(a) && (file_of(a) < file_of(c) < file_of(b)
        || file_of(b) < file_of(c) < file_of(a))) || (same_file_line(a, b) && file_of(c) == file_of(
        a,
    ) && (rank_of(a) < rank_of(c) < rank_of(b) || rank_of(b) < rank_of(c) < rank_of(a))) || (
    same_diag_line(a, b) && rank_of(c) - file_of(c) == rank_of(a) - file_of(a) && (rank_of(a)
        < rank_of(c) < rank_of(b) || rank_of(b) < rank_of(c) < rank_of(a))) || (same_anti_line(
        a,
        b,
    ) && rank_of(c) + file_of(c) == rank_of(a) + file_of(a) && (rank_of(a) < rank_of(c) < rank_of(
        b,
    ) || rank_of(b) < rank_of(c) < rank_of(a)))
}

/// All three squares share one line.
pub open spec fn collinear(a: u8, b: u8, c: u8) -> bool {
    (rank_of(a) == rank_of(b) && rank_of(b) == rank_of(c)) || (file_of(a) == file_of(b) && file_of(
        b,
    ) == file_of(c)) || (rank_of(a) - file_of(a) == rank_of(b) - file_of(b) && rank_of(b) - file_of(
        b,
    ) == rank_of(c) - file_of(c)) || (rank_of(a) + file_of(a) == rank_of(b) + file_of(b) && rank_of(
        b,
    ) + file_of(b) == rank_of(c) + file_of(c))
}

/// No occupied square lies strictly between `a` and `b`.
pub open spec fn clear_between(occ: u64, a: u8, b: u8) -> bool {
    forall|c: u8| c < 64 && strictly_between(a, b, c) ==> !bit64(occ, c)
}

/// A rook on `a` reaches `b` under occupancy `occ`.
pub open spec fn rook_att(occ: u64, a: u8, b: u8) -> bool {
    rook_line(a, b) && clear_between(occ, a, b)
}

/// A bishop on `a` reaches `b` under occupancy `occ`.
pub open spec fn bishop_att(occ: u64, a: u8, b: u8) -> bool {
    bishop_line(a, b) && clear_between(occ, a, b)
}

/// A queen on `a` reaches `b` under occupancy `occ`.
pub open spec fn queen_att(occ: u64, a: u8, b: u8) -> bool {
    rook_att(occ, a, b) || bishop_att(occ, a, b)
}

/// A knight on `a` reaches `b`.
pub open spec fn knight_geom(a: u8, b: u8) -> bool {
    let dr = abs_diff(rank_of(a) as int, rank_of(b) as int);
    let df = abs_diff(file_of(a) as int, file_of(b) as int);
    (dr == 1 && df == 2) || (dr == 2 && df == 1)
}

/// A king on `a` reaches `b`.
pub open spec fn king_geom(a: u8, b: u8) -> bool {
    let dr = abs_diff(rank_of(a) as int, rank_of(b) as int);
    let df = abs_diff(file_of(a) as int, file_of(b) as int);
    a != b && dr <= 1 && df <= 1
}

/// A pawn of `c` on `a` attacks `b` (captures only, one step diagonally
/// forward).
pub open spec fn pawn_att_geom(c: Player, a: u8, b: u8) -> bool {
    abs_diff(file_of(a) as int, file_of(b) as int) == 1 && match c {
        Player::White => rank_of(b) == rank_of(a) + 1,
        Player::Black => rank_of(b) + 1 == rank_of(a),
    }
}

/// Absolute difference.
pub open spec fn abs_diff(x: int, y: int) -> int {
    if x >= y {
        x - y
    } else {
        y - x
    }
}

/// Tests whether `c` lies strictly between `a` and `b`.
pub fn is_between(a: u8, b: u8, c: u8) -> (r: bool)
    requires
        a < 64,
        b < 64,
        c < 64,
    ensures
        r == strictly_between(a, b, c),
{
    let ra = (a / 8) as i32;
    let fa = (a % 8) as i32;
    let rb = (b / 8) as i32;
    let fb = (b % 8) as i32;
    let rc = (c / 8) as i32;
    let fc = (c % 8) as i32;
    (a != b && ra == rb && rc == ra && (fa < fc && fc < fb || fb < fc && fc < fa)) || (a != b && fa
        == fb && fc == fa && (ra < rc && rc < rb || rb < rc && rc < ra)) || (a != b && ra - fa == rb
        - fb && rc - fc == ra - fa && (ra < rc && rc < rb || rb < rc && rc < ra)) || (a != b && ra
        + fa == rb + fb && rc + fc == ra + fa && (ra < rc && rc < rb || rb < rc && rc < ra))
}

/// Tests whether three squares share one line.
pub fn is_collinear(a: u8, b: u8, c: u8) -> (r: bool)
    requires
        a < 64,
        b < 64,
        c < 64,
    ensures
        r == collinear(a, b, c),
{
    let ra = (a / 8) as i32;
    let fa = (a % 8) as i32;
    let rb = (b / 8) as i32;
    let fb = (b % 8) as i32;
    let rc = (c / 8) as i32;
    let fc = (c % 8) as i32;
    (ra == rb && rb == rc) || (fa == fb && fb == fc) || (ra - fa == rb - fb && rb - fb == rc - fc)
        || (ra + fa == rb + fb && rb + fb == rc + fc)
}

/// Tests whether no occupied square lies strictly between `a` and `b`.
pub fn is_clear_between(occ: u64, a: u8, b: u8) -> (r: bool)
    requires
        a < 64,
        b < 64,
    ensures
        r == clear_between(occ, a, b),
{
    let mut c: u8 = 0;
    while c < 64
        invariant
            c <= 64,
            a < 64,
            b < 64,
            forall|j: u8| j < c && strictly_between(a, b, j) ==> !bit64(occ, j),
        decreases 64 - c,
    {
        if is_between(a, b, c) && (occ >> (c as u64)) & 1 == 1 {
            proof {
                assert(strictly_between(a, b, c) && bit64(occ, c));
            }
            return false;
        }
        c = c + 1;
    }
    true
}

/// Tests whether a rook on `a` reaches `b` under `occ`.
pub fn rook_hit(occ: u64, a: u8, b: u8) -> (r: bool)
    requires
        a < 64,
        b < 64,
    ensures
        r == rook_att(occ, a, b),
{
    if a == b {
        return false;
    }
    if a / 8 != b / 8 && a % 8 != b % 8 {
        return false;
    }
    is_clear_between(occ, a, b)
}

/// Tests whether a bishop on `a` reaches `b` under `occ`.
pub fn bishop_hit(occ: u64, a: u8, b: u8) -> (r: bool)
    requires
        a < 64,
        b < 64,
    ensures
        r == bishop_att(occ, a, b),
{
    if a == b {
        return false;
    }
    let ra = (a / 8) as i32;
    let fa = (a % 8) as i32;
    let rb = (b / 8) as i32;
    let fb = (b % 8) as i32;
    if ra - fa != rb - fb && ra + fa != rb + fb {
        return false;
    }
    is_clear_between(occ, a, b)
}

/// Tests whether a knight on `a` reaches `b`.
pub fn knight_hit(a: u8, b: u8) -> (r: bool)
    requires
        a < 64,
        b < 64,
    ensures
        r == knight_geom(a, b),
{
    let ra = (a / 8) as i32;
    let fa = (a % 8) as i32;
    let rb = (b / 8) as i32;
    let fb = (b % 8) as i32;
    let dr = if ra >= rb {
        ra - rb
    } else {
        rb - ra
    };
    let df = if fa >= fb {
        fa - fb
    } else {
        fb - fa
    };
    (dr == 1 && df == 2) || (dr == 2 && df == 1)
}

/// Tests whether a king on `a` reaches `b`.
pub fn king_hit(a: u8, b: u8) -> (r: bool)
    requires
        a < 64,
        b < 64,
    ensures
        r == king_geom(a, b),
{
    let ra = (a / 8) as i32;
    let fa = (a % 8) as i32;
    let rb = (b / 8) as i32;
    let fb = (b % 8) as i32;
    let dr = if ra >= rb {
        ra - rb
    } else {
        rb - ra
    };
    let df = if fa >= fb {
        fa - fb
    } else {
        fb - fa
    };
    a != b && dr <= 1 && df <= 1
}

/// Tests whether a pawn of `c` on `a` attacks `b`.
pub fn pawn_hit(c: Player, a: u8, b: u8) -> (r: bool)
    requires
        a < 64,
        b < 64,
    ensures
        r == pawn_att_geom(c, a, b),
{
    let ra = (a / 8) as i32;
    let fa = (a % 8) as i32;
    let rb = (b / 8) as i32;
    let fb = (b % 8) as i32;
    let df = if fa >= fb {
        fa - fb
    } else {
        fb - fa
    };
    df == 1 && match c {
        Player::White => rb == ra + 1,
        Player::Black => rb + 1 == ra,
    }
}

/// Builds the mask of squares strictly between `a` and `b`.
pub fn between_bb(a: u8, b: u8) -> (r: u64)
    requires
        a < 64,
        b < 64,
    ensures
        forall|c: u8| c < 64 ==> (#[trigger] bit64(r, c) <==> strictly_between(a, b, c)),
{
    let mut r: u64 = 0;
    let mut c: u8 = 0;
    proof {
        assert forall|j: u8| j < 64 implies !bit64(0u64, j) by {
            crate::bits::lemma_bit_empty(j);
        }
    }
    while c < 64
        invariant
            c <= 64,
            a < 64,
            b < 64,
            forall|j: u8| j < c ==> (#[trigger] bit64(r, j) <==> strictly_between(a, b, j)),
            forall|j: u8| c <= j < 64 ==> !bit64(r, j),
        decreases 64 - c,
    {
        if is_between(a, b, c) {
            let m: u64 = 1u64 << (c as u64);
            proof {
                assert forall|j: u8| j < 64 implies (#[trigger] bit64(r | m, j) <==> (bit64(r, j)
                    || j == c)) by {
                    crate::bits::lemma_bit_or(r, m, j);
                    crate::bits::lemma_bit_single(c, j);
                }
            }
            r = r | m;
        }
        c = c + 1;
    }
    r
}

} // verus!
