//! Primitive value types: players, piece kinds, castle sides, move
//! generation categories, and the square / piece-code encodings that the
//! rest of the crate is stated over.
//!
//! A square is a `u8` in `0..64`, bit index `rank * 8 + file` with square
//! 0 at the lower-left corner; 64 stands for "no square".  A placement
//! code is a `u8` in `0..=12`: 0 for an empty square, `1..=6` for the
//! white pawn, knight, bishop, rook, queen and king, `7..=12` for the
//! black ones.

use vstd::prelude::*;

verus! {

/// A square index; 64 (`NO_SQ`) means "none".
pub type SQ = u8;

/// A set of squares as a 64-bit mask.
pub type BitBoard = u64;

/// The "no square" marker.
pub const NO_SQ: u8 = 64;

/// One of the two sides.
#[derive(Clone, Copy, PartialEq, Eq, Structural, Debug)]
pub enum Player {
    White,
    Black,
}

/// A piece kind, without its owner.
#[derive(Clone, Copy, PartialEq, Eq, Structural, Debug)]
pub enum Piece {
    P,
    N,
    B,
    R,
    Q,
    K,
}

/// Which wing a castle goes to.
#[derive(Clone, Copy, PartialEq, Eq, Structural, Debug)]
pub enum CastleType {
    KingSide,
    QueenSide,
}

/// Families of generated moves.
#[derive(Clone, Copy, PartialEq, Eq, Structural, Debug)]
pub enum GenTypes {
    All,
    Captures,
    Quiets,
    QuietChecks,
    Evasions,
    NonEvasions,
}

impl Player {
    /// The opposing side.
    pub fn other_player(self) -> (r: Player)
        ensures
            r == self.flip(),
    {
        match self {
            Player::White => Player::Black,
            Player::Black => Player::White,
        }
    }

    /// The opposing side, for contracts.
    pub open spec fn flip(self) -> Player {
        match self {
            Player::White => Player::Black,
            Player::Black => Player::White,
        }
    }
}

/// Index 0 or 1 of a player.
pub open spec fn player_idx(c: Player) -> int {
    match c {
        Player::White => 0,
        Player::Black => 1,
    }
}

/// Index 0 through 5 of a piece kind.
pub open spec fn piece_idx(p: Piece) -> int {
    match p {
        Piece::P => 0,
        Piece::N => 1,
        Piece::B => 2,
        Piece::R => 3,
        Piece::Q => 4,
        Piece::K => 5,
    }
}

/// The placement code of `c`'s piece `p`: `1..=6` white, `7..=12` black.
pub open spec fn code_of(c: Player, p: Piece) -> u8 {
    (1 + player_idx(c) * 6 + piece_idx(p)) as u8
}

/// Whether a placement code denotes a piece of player `c`.
pub open spec fn code_is_of(code: u8, c: Player) -> bool {
    match c {
        Player::White => 1 <= code <= 6,
        Player::Black => 7 <= code <= 12,
    }
}

/// The piece kind a non-empty placement code denotes.
pub open spec fn code_piece(code: u8) -> Piece
    recommends
        1 <= code <= 12,
{
    let k = if code >= 7 {
        code - 7
    } else {
        code - 1
    };
    if k == 0 {
        Piece::P
    } else if k == 1 {
        Piece::N
    } else if k == 2 {
        Piece::B
    } else if k == 3 {
        Piece::R
    } else if k == 4 {
        Piece::Q
    } else {
        Piece::K
    }
}

/// The owner of a non-empty placement code.
pub open spec fn code_player(code: u8) -> Player
    recommends
        1 <= code <= 12,
{
    if code <= 6 {
        Player::White
    } else {
        Player::Black
    }
}

/// Computes the placement code of a player's piece.
pub fn make_code(c: Player, p: Piece) -> (r: u8)
    ensures
        r == code_of(c, p),
        1 <= r <= 12,
        code_player(r) == c,
        code_piece(r) == p,
        code_is_of(r, c),
{
    let base: u8 = match c {
        Player::White => 1,
        Player::Black => 7,
    };
    let off: u8 = match p {
        Piece::P => 0,
        Piece::N => 1,
        Piece::B => 2,
        Piece::R => 3,
        Piece::Q => 4,
        Piece::K => 5,
    };
    base + off
}

/// Extracts the piece kind of a non-empty placement code.
pub fn decode_piece(code: u8) -> (r: Piece)
    requires
        1 <= code <= 12,
    ensures
        r == code_piece(code),
{
    let k = if code >= 7 {
        code - 7
    } else {
        code - 1
    };
    if k == 0 {
        Piece::P
    } else if k == 1 {
        Piece::N
    } else if k == 2 {
        Piece::B
    } else if k == 3 {
        Piece::R
    } else if k == 4 {
        Piece::Q
    } else {
        Piece::K
    }
}

/// Extracts the owner of a non-empty placement code.
pub fn decode_player(code: u8) -> (r: Player)
    requires
        1 <= code <= 12,
    ensures
        r == code_player(code),
{
    if code <= 6 {
        Player::White
    } else {
        Player::Black
    }
}


/// Encoding and decoding placement codes are inverse to each other.
pub proof fn lemma_code_of(c: Player, pc: Piece)
    ensures
        1 <= code_of(c, pc) <= 12,
        code_piece(code_of(c, pc)) == pc,
        code_player(code_of(c, pc)) == c,
        code_is_of(code_of(c, pc), c),
{
}

/// A non-empty code is the encoding of its own player and piece.
pub proof fn lemma_code_decode(code: u8)
    requires
        1 <= code <= 12,
    ensures
        code_of(code_player(code), code_piece(code)) == code,
{
}

/// The rank (row, `0..8`) of a square.
pub open spec fn rank_of(s: u8) -> u8
    recommends
        s < 64,
{
    s / 8
}

/// The file (column, `0..8`) of a square.
pub open spec fn file_of(s: u8) -> u8
    recommends
        s < 64,
{
    s % 8
}

/// Computes the rank of a square.
pub fn rank_of_sq(s: u8) -> (r: u8)
    requires
        s < 64,
    ensures
        r == rank_of(s),
        r < 8,
{
    s / 8
}

/// Computes the file of a square.
pub fn file_of_sq(s: u8) -> (r: u8)
    requires
        s < 64,
    ensures
        r == file_of(s),
        r < 8,
{
    s % 8
}

/// The square seen from `c`'s side of the board: white squares are kept,
/// black squares are mirrored rank-wise.
pub open spec fn relative_square_spec(c: Player, s: u8) -> u8
    recommends
        s < 64,
{
    match c {
        Player::White => s,
        Player::Black => ((7 - s / 8) * 8 + s % 8) as u8,
    }
}

/// Computes the rank-mirrored square for black, the square itself for white.
pub fn relative_square(c: Player, s: u8) -> (r: u8)
    requires
        s < 64,
    ensures
        r == relative_square_spec(c, s),
        r < 64,
{
    match c {
        Player::White => s,
        Player::Black => (7 - s / 8) * 8 + s % 8,
    }
}

/// The rank of `s` as seen by `c` (0 is `c`'s home rank).
pub open spec fn relative_rank_of(c: Player, s: u8) -> u8
    recommends
        s < 64,
{
    match c {
        Player::White => s / 8,
        Player::Black => (7 - s / 8) as u8,
    }
}

/// The forward pawn direction of `c`: +8 for white, -8 for black.
pub open spec fn pawn_dir(c: Player) -> int {
    match c {
        Player::White => 8,
        Player::Black => -8,
    }
}

/// Chebyshev distance between two squares.
pub open spec fn sq_distance(a: u8, b: u8) -> int
    recommends
        a < 64,
        b < 64,
{
    let dr = if rank_of(a) >= rank_of(b) {
        rank_of(a) - rank_of(b)
    } else {
        rank_of(b) - rank_of(a)
    };
    let df = if file_of(a) >= file_of(b) {
        file_of(a) - file_of(b)
    } else {
        file_of(b) - file_of(a)
    };
    if dr >= df {
        dr as int
    } else {
        df as int
    }
}

/// Computes the Chebyshev distance of two squares.
pub fn distance_of_sqs(a: u8, b: u8) -> (r: u8)
    requires
        a < 64,
        b < 64,
    ensures
        r as int == sq_distance(a, b),
{
    let ra = a / 8;
    let rb = b / 8;
    let fa = a % 8;
    let fb = b % 8;
    let dr = if ra >= rb {
        ra - rb
    } else {
        rb - ra
    };
    let df = if fa >= fb {
        fa - fb
    } else {
        fb - fa
    };
    if dr >= df {
        dr
    } else {
        df
    }
}

} // verus!
