//! Zobrist hashing.  Every hashable feature of a position — a piece on
//! a square, the en-passant file, the castling rights, the side to move
//! — gets a fixed 64-bit key derived by an integer mixing function, and
//! a position's hash is the exclusive or of its features' keys.

use vstd::prelude::*;

use crate::types::Player;

verus! {

/// Truncating 64-bit sum.
pub open spec fn wadd(x: u64, y: u64) -> u64 {
    (((x as int) + (y as int)) % 0x1_0000_0000_0000_0000) as u64
}

/// Truncating 64-bit product.
pub open spec fn wmul(x: u64, y: u64) -> u64 {
    (((x as int) * (y as int)) % 0x1_0000_0000_0000_0000) as u64
}

/// The key of feature `i`: a finalising mix of the index.
pub open spec fn zkey(i: u64) -> u64 {
    let z0 = wadd(i, 0x9E3779B97F4A7C15);
    let z1 = wmul(z0 ^ (z0 >> 30), 0xBF58476D1CE4E5B9);
    let z2 = wmul(z1 ^ (z1 >> 27), 0x94D049BB133111EB);
    z2 ^ (z2 >> 31)
}

/// Computes the key of feature `i`.
pub fn zkey_of(i: u64) -> (r: u64)
    ensures
        r == zkey(i),
{
    let z0 = i.wrapping_add(0x9E3779B97F4A7C15);
    let z1 = (z0 ^ (z0 >> 30)).wrapping_mul(0xBF58476D1CE4E5B9);
    let z2 = (z1 ^ (z1 >> 27)).wrapping_mul(0x94D049BB133111EB);
    z2 ^ (z2 >> 31)
}

/// The feature index of placement code `code` standing on square `s`.
pub open spec fn piece_feature(code: u8, s: u8) -> u64
    recommends
        1 <= code <= 12,
        s < 64,
{
    (((code - 1) * 64) + s) as u64
}

/// The key a square contributes: zero when empty.
pub open spec fn zob_contrib(code: u8, s: u8) -> u64 {
    if 1 <= code <= 12 {
        zkey(piece_feature(code, s))
    } else {
        0
    }
}

/// Exclusive or of the contributions of the first `n` squares.
pub open spec fn zob_squares(p: Seq<u8>, n: int) -> u64
    decreases n,
{
    if n <= 0 {
        0
    } else {
        zob_squares(p, n - 1) ^ zob_contrib(p[n - 1], (n - 1) as u8)
    }
}

/// Key of the en-passant feature; zero when there is no en-passant square.
pub open spec fn zob_ep(ep: u8) -> u64 {
    if ep < 64 {
        zkey((768 + (ep % 8)) as u64)
    } else {
        0
    }
}

/// Key of the castling-rights feature (the low four rights bits).
pub open spec fn zob_castle(rights: u8) -> u64 {
    zkey((776 + (rights & 0xf)) as u64)
}

/// Key of the side-to-move feature; zero when white moves.
pub open spec fn zob_side(turn: Player) -> u64 {
    match turn {
        Player::White => 0,
        Player::Black => zkey(792),
    }
}

/// The hash of a whole position.
pub open spec fn zob_of(p: Seq<u8>, turn: Player, castling: u8, ep: u8) -> u64 {
    zob_squares(p, 64) ^ zob_ep(ep) ^ zob_castle(castling) ^ zob_side(turn)
}

/// Computes the key a square contributes.
pub fn zob_contrib_of(code: u8, s: u8) -> (r: u64)
    requires
        s < 64,
    ensures
        r == zob_contrib(code, s),
{
    if 1 <= code && code <= 12 {
        zkey_of(((code as u64) - 1) * 64 + (s as u64))
    } else {
        0
    }
}

/// Computes the en-passant key.
pub fn zob_ep_of(ep: u8) -> (r: u64)
    ensures
        r == zob_ep(ep),
{
    if ep < 64 {
        zkey_of(768 + ((ep as u64) % 8))
    } else {
        0
    }
}

/// Computes the castling-rights key.
pub fn zob_castle_of(rights: u8) -> (r: u64)
    ensures
        r == zob_castle(rights),
{
    zkey_of(776 + ((rights & 0xf) as u64))
}

/// Computes the side-to-move key.
pub fn zob_side_of(turn: Player) -> (r: u64)
    ensures
        r == zob_side(turn),
{
    match turn {
        Player::White => 0,
        Player::Black => zkey_of(792),
    }
}

/// The square fold only reads the first `n` entries.
pub proof fn lemma_zob_prefix(p: Seq<u8>, q: Seq<u8>, n: int)
    requires
        forall|i: int| 0 <= i < n ==> p[i] == q[i],
    ensures
        zob_squares(p, n) == zob_squares(q, n),
    decreases n,
{
    if n > 0 {
        lemma_zob_prefix(p, q, n - 1);
    }
}

/// Changing one square changes the fold by the old and new contributions
/// of that square.
pub proof fn lemma_zob_update(p: Seq<u8>, j: int, v: u8, n: int)
    requires
        0 <= j < p.len(),
        p.len() == 64,
        n <= 64,
    ensures
        zob_squares(p.update(j, v), n) == if j < n {
            zob_squares(p, n) ^ zob_contrib(p[j], j as u8) ^ zob_contrib(v, j as u8)
        } else {
            zob_squares(p, n)
        },
    decreases n,
{
    let pu = p.update(j, v);
    if n <= 0 {
    } else if j >= n {
        lemma_zob_update(p, j, v, n - 1);
    } else if j == n - 1 {
        lemma_zob_prefix(pu, p, n - 1);
        let x = zob_squares(p, n - 1);
        let a = zob_contrib(p[j], j as u8);
        let b = zob_contrib(v, j as u8);
        assert(x ^ b == ((x ^ a) ^ a) ^ b) by (bit_vector);
    } else {
        lemma_zob_update(p, j, v, n - 1);
        let x = zob_squares(p, n - 1);
        let a = zob_contrib(p[j], j as u8);
        let b = zob_contrib(v, j as u8);
        let c = zob_contrib(p[n - 1], (n - 1) as u8);
        assert(pu[n - 1] == p[n - 1]);
        assert(((x ^ a ^ b) ^ c) == ((x ^ c) ^ a ^ b)) by (bit_vector);
    }
}

} // verus!
