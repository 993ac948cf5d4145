//! Castling bookkeeping, packed into one byte: bits 0 through 3 are the
//! remaining rights (white king side, white queen side, black king
//! side, black queen side), bits 4 and 5 record that a side has
//! actually castled.

use vstd::prelude::*;

use crate::types::{CastleType, Player};

verus! {

/// The rights bit of one side's castle.
pub open spec fn cr_bit(c: Player, t: CastleType) -> u8 {
    match (c, t) {
        (Player::White, CastleType::KingSide) => 1,
        (Player::White, CastleType::QueenSide) => 2,
        (Player::Black, CastleType::KingSide) => 4,
        (Player::Black, CastleType::QueenSide) => 8,
    }
}

/// Both rights bits of one side.
pub open spec fn cr_side_bits(c: Player) -> u8 {
    match c {
        Player::White => 3,
        Player::Black => 12,
    }
}

/// The has-castled bit of one side.
pub open spec fn castled_bit(c: Player) -> u8 {
    match c {
        Player::White => 16,
        Player::Black => 32,
    }
}

/// The rights a touched square takes away: a rook's home corner clears
/// one right, a king's home square clears both of its side's rights.
pub open spec fn cr_sq_mask(s: u8) -> u8 {
    if s == 0 {
        2
    } else if s == 4 {
        3
    } else if s == 7 {
        1
    } else if s == 56 {
        8
    } else if s == 60 {
        12
    } else if s == 63 {
        4
    } else {
        0
    }
}

/// Computes the rights a touched square takes away.
pub fn castle_rights_mask(s: u8) -> (r: u8)
    ensures
        r == cr_sq_mask(s),
{
    if s == 0 {
        2
    } else if s == 4 {
        3
    } else if s == 7 {
        1
    } else if s == 56 {
        8
    } else if s == 60 {
        12
    } else if s == 63 {
        4
    } else {
        0
    }
}

/// Whether `c` may still castle on wing `t` under rights byte `cas`.
pub open spec fn has_right(cas: u8, c: Player, t: CastleType) -> bool {
    cas & cr_bit(c, t) != 0
}

/// Tests a castle right.
pub fn test_right(cas: u8, c: Player, t: CastleType) -> (r: bool)
    ensures
        r == has_right(cas, c, t),
{
    let b: u8 = match (c, t) {
        (Player::White, CastleType::KingSide) => 1,
        (Player::White, CastleType::QueenSide) => 2,
        (Player::Black, CastleType::KingSide) => 4,
        (Player::Black, CastleType::QueenSide) => 8,
    };
    cas & b != 0
}

/// Whether `c` has castled under byte `cas`.
pub open spec fn spec_has_castled(cas: u8, c: Player) -> bool {
    cas & castled_bit(c) != 0
}

/// Tests whether a side has castled.
pub fn test_castled(cas: u8, c: Player) -> (r: bool)
    ensures
        r == spec_has_castled(cas, c),
{
    let b: u8 = match c {
        Player::White => 16,
        Player::Black => 32,
    };
    cas & b != 0
}

/// The byte after `c` castles: its rights leave, its castled bit enters.
pub open spec fn spec_set_castled(cas: u8, c: Player) -> u8 {
    (cas & !cr_side_bits(c)) | castled_bit(c)
}

/// Marks a side as castled and clears its rights.
pub fn set_castled(cas: u8, c: Player) -> (r: u8)
    ensures
        r == spec_set_castled(cas, c),
{
    let side: u8 = match c {
        Player::White => 3,
        Player::Black => 12,
    };
    let done: u8 = match c {
        Player::White => 16,
        Player::Black => 32,
    };
    (cas & !side) | done
}

/// The byte after a move touching `from` and `to`.
pub open spec fn spec_update_rights(cas: u8, from: u8, to: u8) -> u8 {
    cas & !(cr_sq_mask(from) | cr_sq_mask(to))
}

/// Clears the rights a move's squares take away.
pub fn update_rights(cas: u8, from: u8, to: u8) -> (r: u8)
    ensures
        r == spec_update_rights(cas, from, to),
{
    cas & !(castle_rights_mask(from) | castle_rights_mask(to))
}

/// The castling byte after a move: a castle marks its side castled and
/// drops its rights; any move drops the rights of the squares it
/// touches.
pub open spec fn castling_after(cas: u8, us: Player, is_castle: bool, from: u8, to: u8) -> u8 {
    let c1 = if is_castle {
        spec_set_castled(cas, us)
    } else {
        cas
    };
    spec_update_rights(c1, from, to)
}

} // verus!
