//! The square-to-piece table: for each of the 64 squares, which
//! player's piece, if any, stands there, stored as a placement code.

use vstd::prelude::*;

use crate::types::{Piece, Player, code_is_of, code_of, code_piece, code_player};

verus! {

/// Maps every square to its placement code.
#[derive(Clone, Debug)]
pub struct PieceLocations {
    codes: Vec<u8>,
}

impl View for PieceLocations {
    type V = Seq<u8>;

    closed spec fn view(&self) -> Seq<u8> {
        self.codes@
    }
}

/// A well-formed placement: 64 squares, every code in range.
pub open spec fn placement_wf(p: Seq<u8>) -> bool {
    p.len() == 64 && forall|i: int| 0 <= i < 64 ==> #[trigger] p[i] <= 12
}

impl PieceLocations {
    /// An empty table.
    pub fn blank() -> (r: PieceLocations)
        ensures
            placement_wf(r@),
            forall|i: int| 0 <= i < 64 ==> #[trigger] r@[i] == 0,
    {
        let mut codes: Vec<u8> = Vec::new();
        let mut i: usize = 0;
        while i < 64
            invariant
                codes@.len() == i,
                i <= 64,
                forall|j: int| 0 <= j < i ==> #[trigger] codes@[j] == 0,
            decreases 64 - i,
        {
            codes.push(0);
            i = i + 1;
        }
        PieceLocations { codes }
    }

    /// An exact copy of the table.
    pub fn duplicate(&self) -> (r: PieceLocations)
        ensures
            r@ == self@,
    {
        let mut codes: Vec<u8> = Vec::new();
        let mut i: usize = 0;
        let n = self.codes.len();
        while i < n
            invariant
                codes@.len() == i,
                i <= n,
                n == self.codes@.len(),
                forall|j: int| 0 <= j < i ==> #[trigger] codes@[j] == self.codes@[j],
            decreases n - i,
        {
            let c = self.codes[i];
            codes.push(c);
            i = i + 1;
        }
        proof {
            assert(codes@ =~= self.codes@);
        }
        PieceLocations { codes }
    }

    /// Puts `c`'s piece `p` on square `s`.
    pub fn place(&mut self, s: u8, c: Player, p: Piece)
        requires
            s < 64,
            placement_wf(old(self)@),
        ensures
            final(self)@ == old(self)@.update(s as int, code_of(c, p)),
            placement_wf(final(self)@),
    {
        let code = crate::types::make_code(c, p);
        self.codes.set(s as usize, code);
    }

    /// Empties square `s`.
    pub fn remove(&mut self, s: u8)
        requires
            s < 64,
            placement_wf(old(self)@),
        ensures
            final(self)@ == old(self)@.update(s as int, 0u8),
            placement_wf(final(self)@),
    {
        self.codes.set(s as usize, 0);
    }

    /// The placement code on square `s`.
    pub fn code_at(&self, s: u8) -> (r: u8)
        requires
            s < 64,
            placement_wf(self@),
        ensures
            r == self@[s as int],
    {
        self.codes[s as usize]
    }

    /// The piece, if any, on square `s`.
    pub fn piece_at(&self, s: u8) -> (r: Option<Piece>)
        requires
            s < 64,
            placement_wf(self@),
        ensures
            r == if self@[s as int] == 0 {
                Option::<Piece>::None
            } else {
                Option::Some(code_piece(self@[s as int]))
            },
    {
        let code = self.codes[s as usize];
        if code == 0 {
            None
        } else {
            Some(crate::types::decode_piece(code))
        }
    }

    /// The player, if any, on square `s`.
    pub fn player_at(&self, s: u8) -> (r: Option<Player>)
        requires
            s < 64,
            placement_wf(self@),
        ensures
            r == if self@[s as int] == 0 {
                Option::<Player>::None
            } else {
                Option::Some(code_player(self@[s as int]))
            },
    {
        let code = self.codes[s as usize];
        if code == 0 {
            None
        } else {
            Some(crate::types::decode_player(code))
        }
    }

    /// The player and piece, if any, on square `s`.
    pub fn player_piece_at(&self, s: u8) -> (r: Option<(Player, Piece)>)
        requires
            s < 64,
            placement_wf(self@),
        ensures
            r == if self@[s as int] == 0 {
                Option::<(Player, Piece)>::None
            } else {
                Option::Some((code_player(self@[s as int]), code_piece(self@[s as int])))
            },
    {
        let code = self.codes[s as usize];
        if code == 0 {
            None
        } else {
            Some((crate::types::decode_player(code), crate::types::decode_piece(code)))
        }
    }

    /// The piece of player `c` on square `s`, if `c` owns what stands there.
    pub fn piece_at_for_player(&self, s: u8, c: Player) -> (r: Option<Piece>)
        requires
            s < 64,
            placement_wf(self@),
        ensures
            r == if code_is_of(self@[s as int], c) {
                Option::Some(code_piece(self@[s as int]))
            } else {
                Option::<Piece>::None
            },
    {
        let code = self.codes[s as usize];
        if code == 0 {
            None
        } else if crate::types::decode_player(code) == c {
            Some(crate::types::decode_piece(code))
        } else {
            None
        }
    }
}

} // verus!
