//! Move values.  A move packs its source square, destination square and
//! a tag into sixteen bits: bits `0..6` the destination, bits `6..12`
//! the source, bits `12..14` a promotion piece (0 knight through 3
//! queen), bits `14..16` the tag (0 normal, 1 promotion, 2 en passant,
//! 3 castle).  The all-zero word is the null move.
//!
//! A castle is encoded as the king moving onto its own rook's square.

use vstd::prelude::*;

use crate::types::Piece;

verus! {

/// What kind of move a word encodes.
#[derive(Clone, Copy, PartialEq, Eq, Structural, Debug)]
pub enum MoveType {
    Normal,
    Promotion,
    EnPassant,
    Castle,
}

/// A packed move.
#[derive(Clone, Copy, PartialEq, Eq, Structural, Debug)]
pub struct BitMove {
    pub data: u16,
}

/// Source square of a packed move.
pub open spec fn mv_src(m: BitMove) -> u8 {
    ((m.data >> 6) & 0x3f) as u8
}

/// Destination square of a packed move.
pub open spec fn mv_dst(m: BitMove) -> u8 {
    (m.data & 0x3f) as u8
}

/// Tag bits of a packed move.
pub open spec fn mv_tag(m: BitMove) -> u16 {
    m.data >> 14
}

/// The kind of a packed move.
pub open spec fn mv_type(m: BitMove) -> MoveType {
    let t = mv_tag(m);
    if t == 0 {
        MoveType::Normal
    } else if t == 1 {
        MoveType::Promotion
    } else if t == 2 {
        MoveType::EnPassant
    } else {
        MoveType::Castle
    }
}

/// The piece a promotion move promotes to.
pub open spec fn mv_promo(m: BitMove) -> Piece {
    let k = (m.data >> 12) & 3;
    if k == 0 {
        Piece::N
    } else if k == 1 {
        Piece::B
    } else if k == 2 {
        Piece::R
    } else {
        Piece::Q
    }
}

impl BitMove {
    /// The null move.
    pub fn null() -> (r: BitMove)
        ensures
            r.data == 0,
    {
        BitMove { data: 0 }
    }

    /// Whether this is the null move.
    pub fn is_null(self) -> (r: bool)
        ensures
            r == (self.data == 0),
    {
        self.data == 0
    }

    /// Packs a move from its parts.
    pub fn make(src: u8, dst: u8, tag: u16, promo_k: u16) -> (r: BitMove)
        requires
            src < 64,
            dst < 64,
            tag < 4,
            promo_k < 4,
        ensures
            mv_src(r) == src,
            mv_dst(r) == dst,
            mv_tag(r) == tag,
            (r.data >> 12) & 3 == promo_k,
    {
        let d: u16 = (dst as u16) | ((src as u16) << 6) | (promo_k << 12) | (tag << 14);
        proof {
            let s16 = src as u16;
            let d16 = dst as u16;
            assert(s16 < 64 && d16 < 64 && tag < 4 && promo_k < 4 ==> ((d16 | (s16 << 6) | (
            promo_k << 12) | (tag << 14)) >> 6) & 0x3f == s16 && (d16 | (s16 << 6) | (promo_k
                << 12) | (tag << 14)) & 0x3f == d16 && (d16 | (s16 << 6) | (promo_k << 12) | (tag
                << 14)) >> 14 == tag && ((d16 | (s16 << 6) | (promo_k << 12) | (tag << 14)) >> 12)
                & 3 == promo_k) by (bit_vector);
        }
        BitMove { data: d }
    }

    /// The square the moved piece starts from.
    pub fn get_src(self) -> (r: u8)
        ensures
            r == mv_src(self),
            r < 64,
    {
        proof {
            let d = self.data;
            assert((d >> 6) & 0x3f < 64) by (bit_vector);
        }
        ((self.data >> 6) & 0x3f) as u8
    }

    /// The square the moved piece lands on (the rook's square for a castle).
    pub fn get_dest(self) -> (r: u8)
        ensures
            r == mv_dst(self),
            r < 64,
    {
        proof {
            let d = self.data;
            assert(d & 0x3f < 64) by (bit_vector);
        }
        (self.data & 0x3f) as u8
    }

    /// The kind of this move.
    pub fn move_type(self) -> (r: MoveType)
        ensures
            r == mv_type(self),
    {
        proof {
            let d = self.data;
            assert(d >> 14 < 4) by (bit_vector);
        }
        let t = self.data >> 14;
        if t == 0 {
            MoveType::Normal
        } else if t == 1 {
            MoveType::Promotion
        } else if t == 2 {
            MoveType::EnPassant
        } else {
            MoveType::Castle
        }
    }

    /// Whether this move is a promotion.
    pub fn is_promo(self) -> (r: bool)
        ensures
            r == (mv_type(self) == MoveType::Promotion),
    {
        self.move_type() == MoveType::Promotion
    }

    /// Whether this move is an en-passant capture.
    pub fn is_en_passant(self) -> (r: bool)
        ensures
            r == (mv_type(self) == MoveType::EnPassant),
    {
        self.move_type() == MoveType::EnPassant
    }

    /// Whether this move is a castle.
    pub fn is_castle(self) -> (r: bool)
        ensures
            r == (mv_type(self) == MoveType::Castle),
    {
        self.move_type() == MoveType::Castle
    }

    /// The piece a promotion promotes to.
    pub fn promo_piece(self) -> (r: Piece)
        ensures
            r == mv_promo(self),
    {
        proof {
            let d = self.data;
            assert((d >> 12) & 3 < 4) by (bit_vector);
        }
        let k = (self.data >> 12) & 3;
        if k == 0 {
            Piece::N
        } else if k == 1 {
            Piece::B
        } else if k == 2 {
            Piece::R
        } else {
            Piece::Q
        }
    }

    /// The move in coordinate notation, such as `e2e4` or `a7a8q`.
    /// A castle shows the king's true destination square.
    pub fn stringify(self) -> (r: String)
        ensures
            r@ == mv_str(self),
    {
        let src = self.get_src();
        let mut dst = self.get_dest();
        if self.move_type() == MoveType::Castle {
            dst = if dst > src && src < 62 {
                src + 2
            } else if dst < src && src >= 2 {
                src - 2
            } else {
                dst
            };
        }
        let mut s = String::new();
        s.append(file_str(src % 8));
        s.append(rank_str(src / 8));
        s.append(file_str(dst % 8));
        s.append(rank_str(dst / 8));
        if self.move_type() == MoveType::Promotion {
            s.append(promo_str(self.promo_piece()));
        }
        proof {
            assert(s@ =~= mv_str(self));
        }
        s
    }
}

/// The displayed destination square: for a castle, the king's true
/// landing square two files toward the rook.
pub open spec fn mv_shown_dst(m: BitMove) -> u8 {
    if mv_type(m) == MoveType::Castle {
        if mv_dst(m) > mv_src(m) && mv_src(m) < 62 {
            (mv_src(m) + 2) as u8
        } else if mv_dst(m) < mv_src(m) && mv_src(m) >= 2 {
            (mv_src(m) - 2) as u8
        } else {
            mv_dst(m)
        }
    } else {
        mv_dst(m)
    }
}

/// Coordinate notation of a move.
pub open spec fn mv_str(m: BitMove) -> Seq<char> {
    let base = seq![
        file_char_spec(file_of_u8(mv_src(m))),
        rank_char_spec(rank_of_u8(mv_src(m))),
        file_char_spec(file_of_u8(mv_shown_dst(m))),
        rank_char_spec(rank_of_u8(mv_shown_dst(m))),
    ];
    if mv_type(m) == MoveType::Promotion {
        base.push(promo_char_spec(mv_promo(m)))
    } else {
        base
    }
}

/// The file part of a square index.
pub open spec fn file_of_u8(s: u8) -> u8 {
    s % 8
}

/// The rank part of a square index.
pub open spec fn rank_of_u8(s: u8) -> u8 {
    s / 8
}

/// Letter of a file.
pub open spec fn file_char_spec(f: u8) -> char {
    if f == 0 {
        'a'
    } else if f == 1 {
        'b'
    } else if f == 2 {
        'c'
    } else if f == 3 {
        'd'
    } else if f == 4 {
        'e'
    } else if f == 5 {
        'f'
    } else if f == 6 {
        'g'
    } else {
        'h'
    }
}

/// Digit of a rank.
pub open spec fn rank_char_spec(r: u8) -> char {
    if r == 0 {
        '1'
    } else if r == 1 {
        '2'
    } else if r == 2 {
        '3'
    } else if r == 3 {
        '4'
    } else if r == 4 {
        '5'
    } else if r == 5 {
        '6'
    } else if r == 6 {
        '7'
    } else {
        '8'
    }
}

/// Letter of a promotion piece.
pub open spec fn promo_char_spec(p: Piece) -> char {
    match p {
        Piece::N => 'n',
        Piece::B => 'b',
        Piece::R => 'r',
        Piece::Q => 'q',
        Piece::P => 'p',
        Piece::K => 'k',
    }
}

/// The letter of a file as a one-character string.
pub fn file_str(f: u8) -> (r: &'static str)
    ensures
        r@ == seq![file_char_spec(f)],
{
    proof {
        reveal_strlit("a");
        reveal_strlit("b");
        reveal_strlit("c");
        reveal_strlit("d");
        reveal_strlit("e");
        reveal_strlit("f");
        reveal_strlit("g");
        reveal_strlit("h");
    }
    let r = if f == 0 {
        "a"
    } else if f == 1 {
        "b"
    } else if f == 2 {
        "c"
    } else if f == 3 {
        "d"
    } else if f == 4 {
        "e"
    } else if f == 5 {
        "f"
    } else if f == 6 {
        "g"
    } else {
        "h"
    };
    proof {
        assert(r@ =~= seq![file_char_spec(f)]);
    }
    r
}

/// The digit of a rank as a one-character string.
pub fn rank_str(k: u8) -> (r: &'static str)
    ensures
        r@ == seq![rank_char_spec(k)],
{
    proof {
        reveal_strlit("1");
        reveal_strlit("2");
        reveal_strlit("3");
        reveal_strlit("4");
        reveal_strlit("5");
        reveal_strlit("6");
        reveal_strlit("7");
        reveal_strlit("8");
    }
    let r = if k == 0 {
        "1"
    } else if k == 1 {
        "2"
    } else if k == 2 {
        "3"
    } else if k == 3 {
        "4"
    } else if k == 4 {
        "5"
    } else if k == 5 {
        "6"
    } else if k == 6 {
        "7"
    } else {
        "8"
    };
    proof {
        assert(r@ =~= seq![rank_char_spec(k)]);
    }
    r
}

/// The letter of a promotion piece as a one-character string.
pub fn promo_str(p: Piece) -> (r: &'static str)
    ensures
        r@ == seq![promo_char_spec(p)],
{
    proof {
        reveal_strlit("n");
        reveal_strlit("b");
        reveal_strlit("r");
        reveal_strlit("q");
        reveal_strlit("p");
        reveal_strlit("k");
    }
    let r = match p {
        Piece::N => "n",
        Piece::B => "b",
        Piece::R => "r",
        Piece::Q => "q",
        Piece::P => "p",
        Piece::K => "k",
    };
    proof {
        assert(r@ =~= seq![promo_char_spec(p)]);
    }
    r
}

} // verus!
