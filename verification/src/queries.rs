//! Read-only queries on a board: occupancy, counts, castling, checks,
//! pins, and attack tests.

use vstd::prelude::*;

use crate::bits::{bit64, lsb_index, popcount};
use crate::board::Board;
use crate::castling::{has_right, spec_has_castled};
use crate::moves::{BitMove, MoveType, mv_dst, mv_src, mv_type};
use crate::rules::{
    attacked_by, attacker_reaches, count_occupied, count_of_player, is_blocker, is_checker,
    is_pinner, ksq_of,
};
use crate::types::{
    CastleType, NO_SQ, Piece, Player, code_is_of, code_of, code_piece, code_player,
    relative_square_spec,
};

verus! {

impl Board {
    /// The player whose turn it is to move.
    pub fn turn(&self) -> (r: Player)
        ensures
            r == self.turn,
    {
        self.turn
    }

    /// The position hash.
    pub fn zobrist(&self) -> (r: u64)
        ensures
            r == self.state.zobrast,
    {
        self.state.zobrast
    }

    /// Total half moves played on this board.
    pub fn moves_played(&self) -> (r: u16)
        ensures
            r == self.half_moves,
    {
        self.half_moves
    }

    /// Half moves since the last depth-resetting copy.
    pub fn depth(&self) -> (r: u16)
        ensures
            r == self.depth,
    {
        self.depth
    }

    /// Half moves since a pawn move or capture.
    pub fn rule_50(&self) -> (r: i16)
        ensures
            r == self.state.rule_50,
    {
        self.state.rule_50
    }

    /// The piece the last applied move captured, if any.
    pub fn piece_captured_last_turn(&self) -> (r: Option<Piece>)
        ensures
            r == self.state.captured_piece,
    {
        self.state.captured_piece
    }

    /// The piece the last applied move captured, if any.
    pub fn piece_last_captured(&self) -> (r: Option<Piece>)
        ensures
            r == self.state.captured_piece,
    {
        self.state.captured_piece
    }

    /// Plies recorded on the current record chain.
    pub fn ply(&self) -> (r: u16)
        ensures
            r == self.state.ply,
    {
        self.state.ply
    }

    /// The en-passant target square; 64 when there is none.
    pub fn ep_square(&self) -> (r: u8)
        ensures
            r == self.state.ep_square,
    {
        self.state.ep_square
    }

    /// Mask of every occupied square.
    pub fn get_occupied(&self) -> (r: u64)
        requires
            self.wf(),
        ensures
            forall|s: u8| s < 64 ==> (#[trigger] bit64(r, s) <==> self.placement()[s as int] != 0),
    {
        self.sq.occ_all
    }

    /// Mask of the squares `player` occupies.
    pub fn get_occupied_player(&self, player: Player) -> (r: u64)
        requires
            self.wf(),
        ensures
            forall|s: u8|
                s < 64 ==> (#[trigger] bit64(r, s) <==> code_is_of(
                    self.placement()[s as int],
                    player,
                )),
    {
        match player {
            Player::White => self.sq.occ_w,
            Player::Black => self.sq.occ_b,
        }
    }

    /// Mask of the squares white occupies.
    pub fn occupied_white(&self) -> (r: u64)
        requires
            self.wf(),
        ensures
            forall|s: u8|
                s < 64 ==> (#[trigger] bit64(r, s) <==> code_is_of(
                    self.placement()[s as int],
                    Player::White,
                )),
    {
        self.sq.occ_w
    }

    /// Mask of the squares black occupies.
    pub fn occupied_black(&self) -> (r: u64)
        requires
            self.wf(),
        ensures
            forall|s: u8|
                s < 64 ==> (#[trigger] bit64(r, s) <==> code_is_of(
                    self.placement()[s as int],
                    Player::Black,
                )),
    {
        self.sq.occ_b
    }

    /// Mask of `player`'s pieces of kind `piece`.
    pub fn piece_bb(&self, player: Player, piece: Piece) -> (r: u64)
        requires
            self.wf(),
        ensures
            forall|s: u8|
                s < 64 ==> (#[trigger] bit64(r, s) <==> self.placement()[s as int] == code_of(
                    player,
                    piece,
                )),
    {
        self.sq.piece_mask(player, piece)
    }

    /// Mask of `player`'s rooks and queens.
    pub fn sliding_piece_bb(&self, player: Player) -> (r: u64)
        requires
            self.wf(),
        ensures
            forall|s: u8|
                s < 64 ==> (#[trigger] bit64(r, s) <==> (self.placement()[s as int] == code_of(
                    player,
                    Piece::R,
                ) || self.placement()[s as int] == code_of(player, Piece::Q))),
    {
        self.piece_two_bb(Piece::R, Piece::Q, player)
    }

    /// Mask of `player`'s bishops and queens.
    pub fn diagonal_piece_bb(&self, player: Player) -> (r: u64)
        requires
            self.wf(),
        ensures
            forall|s: u8|
                s < 64 ==> (#[trigger] bit64(r, s) <==> (self.placement()[s as int] == code_of(
                    player,
                    Piece::B,
                ) || self.placement()[s as int] == code_of(player, Piece::Q))),
    {
        self.piece_two_bb(Piece::B, Piece::Q, player)
    }

    /// Mask of both players' pieces of kind `piece`.
    pub fn piece_bb_both_players(&self, piece: Piece) -> (r: u64)
        requires
            self.wf(),
        ensures
            forall|s: u8|
                s < 64 ==> (#[trigger] bit64(r, s) <==> (self.placement()[s as int] == code_of(
                    Player::White,
                    piece,
                ) || self.placement()[s as int] == code_of(Player::Black, piece))),
    {
        let a = self.sq.piece_mask(Player::White, piece);
        let b = self.sq.piece_mask(Player::Black, piece);
        proof {
            assert forall|s: u8| s < 64 implies (#[trigger] bit64(a | b, s) <==> (bit64(a, s)
                || bit64(b, s))) by {
                crate::bits::lemma_bit_or(a, b, s);
            }
        }
        a | b
    }

    /// Mask of both players' pieces of either kind.
    pub fn piece_two_bb_both_players(&self, piece: Piece, piece2: Piece) -> (r: u64)
        requires
            self.wf(),
        ensures
            forall|s: u8|
                s < 64 ==> (#[trigger] bit64(r, s) <==> (self.placement()[s as int] == code_of(
                    Player::White,
                    piece,
                ) || self.placement()[s as int] == code_of(Player::Black, piece)
                    || self.placement()[s as int] == code_of(Player::White, piece2)
                    || self.placement()[s as int] == code_of(Player::Black, piece2))),
    {
        let a = self.piece_bb_both_players(piece);
        let b = self.piece_bb_both_players(piece2);
        proof {
            assert forall|s: u8| s < 64 implies (#[trigger] bit64(a | b, s) <==> (bit64(a, s)
                || bit64(b, s))) by {
                crate::bits::lemma_bit_or(a, b, s);
            }
        }
        a | b
    }

    /// Mask of `player`'s pieces of either kind.
    pub fn piece_two_bb(&self, piece: Piece, piece2: Piece, player: Player) -> (r: u64)
        requires
            self.wf(),
        ensures
            forall|s: u8|
                s < 64 ==> (#[trigger] bit64(r, s) <==> (self.placement()[s as int] == code_of(
                    player,
                    piece,
                ) || self.placement()[s as int] == code_of(player, piece2))),
    {
        let a = self.sq.piece_mask(player, piece);
        let b = self.sq.piece_mask(player, piece2);
        proof {
            assert forall|s: u8| s < 64 implies (#[trigger] bit64(a | b, s) <==> (bit64(a, s)
                || bit64(b, s))) by {
                crate::bits::lemma_bit_or(a, b, s);
            }
        }
        a | b
    }

    /// How many pieces of kind `piece` the player has.
    pub fn count_piece(&self, player: Player, piece: Piece) -> (r: u8)
        requires
            self.wf(),
        ensures
            r as int == crate::rules::count_code(self.placement(), code_of(player, piece), 64),
    {
        let m = self.sq.piece_mask(player, piece);
        proof {
            crate::rules::lemma_bits_code_count(m, self.placement(), code_of(player, piece), 64);
        }
        popcount(m)
    }

    /// How many pieces the player has in all.
    pub fn count_pieces_player(&self, player: Player) -> (r: u8)
        requires
            self.wf(),
        ensures
            r as int == count_of_player(self.placement(), player, 64),
    {
        let m = match player {
            Player::White => self.sq.occ_w,
            Player::Black => self.sq.occ_b,
        };
        proof {
            crate::rules::lemma_bits_player_count(m, self.placement(), player, 64);
        }
        popcount(m)
    }

    /// How many pieces stand on the board.
    pub fn count_all_pieces(&self) -> (r: u8)
        requires
            self.wf(),
        ensures
            r as int == count_occupied(self.placement(), 64),
    {
        proof {
            crate::rules::lemma_bits_occupied_count(self.sq.occ_all, self.placement(), 64);
            crate::bits::lemma_count_bits_bound(self.sq.occ_all);
        }
        popcount(self.sq.occ_all)
    }

    /// The piece, if any, on the single square of `src_bit`.
    pub fn piece_at_bb(&self, src_bit: u64, player: Player) -> (r: Option<Piece>)
        requires
            self.wf(),
            exists|s: u8| s < 64 && bit64(src_bit, s),
        ensures
            ({
                let s = choose|s: u8| s < 64 && #[trigger] bit64(src_bit, s) && forall|j: u8|
                    j < s ==> !bit64(src_bit, j);
                r == (if code_is_of(self.placement()[s as int], player) {
                    Option::Some(code_piece(self.placement()[s as int]))
                } else {
                    Option::<Piece>::None
                })
            }),
    {
        let s = lsb_index(src_bit);
        proof {
            let w = choose|w: u8| w < 64 && bit64(src_bit, w);
            assert(s < 64);
            assert(s < 64 && bit64(src_bit, s) && (forall|j: u8| j < s ==> !bit64(src_bit, j)));
        }
        self.sq.piece_at_for(s, player)
    }

    /// The piece, if any, on the single square of `src_bit`, for either
    /// player.
    pub fn piece_at_bb_all(&self, src_bit: u64) -> (r: Option<Piece>)
        requires
            self.wf(),
            exists|s: u8| s < 64 && bit64(src_bit, s),
        ensures
            ({
                let s = choose|s: u8| s < 64 && #[trigger] bit64(src_bit, s) && forall|j: u8|
                    j < s ==> !bit64(src_bit, j);
                r == (if self.placement()[s as int] == 0 {
                    Option::<Piece>::None
                } else {
                    Option::Some(code_piece(self.placement()[s as int]))
                })
            }),
    {
        let s = lsb_index(src_bit);
        proof {
            let w = choose|w: u8| w < 64 && bit64(src_bit, w);
            assert(s < 64);
            assert(s < 64 && bit64(src_bit, s) && (forall|j: u8| j < s ==> !bit64(src_bit, j)));
        }
        self.sq.piece_at(s)
    }

    /// The piece, if any, on square `sq`.
    pub fn piece_at_sq(&self, sq: u8) -> (r: Option<Piece>)
        requires
            self.wf(),
            sq < 64,
        ensures
            r == (if self.placement()[sq as int] == 0 {
                Option::<Piece>::None
            } else {
                Option::Some(code_piece(self.placement()[sq as int]))
            }),
    {
        self.sq.piece_at(sq)
    }

    /// The player, if any, on square `sq`.
    pub fn color_of_sq(&self, sq: u8) -> (r: Option<Player>)
        requires
            self.wf(),
            sq < 64,
        ensures
            r == (if self.placement()[sq as int] == 0 {
                Option::<Player>::None
            } else {
                Option::Some(code_player(self.placement()[sq as int]))
            }),
    {
        self.sq.player_at(sq)
    }

    /// The player, if any, on square `s`.
    pub fn player_at_sq(&self, s: u8) -> (r: Option<Player>)
        requires
            self.wf(),
            s < 64,
        ensures
            r == (if self.placement()[s as int] == 0 {
                Option::<Player>::None
            } else {
                Option::Some(code_player(self.placement()[s as int]))
            }),
    {
        self.sq.player_at(s)
    }

    /// The square of `player`'s king.
    pub fn king_sq(&self, player: Player) -> (r: u8)
        requires
            self.wf(),
        ensures
            r == ksq_of(self.placement(), player),
            r < 64,
            self.placement()[r as int] == code_of(player, Piece::K),
    {
        crate::board::sq_king(&self.sq, player)
    }

    /// Mask of `player`'s pieces pinned to their own king.
    pub fn pinned_pieces(&self, player: Player) -> (r: u64)
        requires
            self.wf(),
        ensures
            forall|x: u8|
                x < 64 ==> (#[trigger] bit64(r, x) <==> (is_blocker(self.placement(), player, x)
                    && code_is_of(self.placement()[x as int], player))),
    {
        let b = match player {
            Player::White => self.state.blockers_white,
            Player::Black => self.state.blockers_black,
        };
        let o = match player {
            Player::White => self.sq.occ_w,
            Player::Black => self.sq.occ_b,
        };
        proof {
            assert forall|x: u8| x < 64 implies (#[trigger] bit64(b & o, x) <==> (bit64(b, x)
                && bit64(o, x))) by {
                crate::bits::lemma_bit_and(b, o, x);
            }
        }
        b & o
    }

    /// Mask of everything shielding `player`'s king from a single
    /// slider, pieces of either side included.
    pub fn all_pinned_pieces(&self, player: Player) -> (r: u64)
        requires
            self.wf(),
        ensures
            forall|x: u8| x < 64 ==> (#[trigger] bit64(r, x) <==> is_blocker(
                self.placement(),
                player,
                x,
            )),
    {
        match player {
            Player::White => self.state.blockers_white,
            Player::Black => self.state.blockers_black,
        }
    }

    /// Mask of the sliders pinning a piece of `player` to `player`'s
    /// king.
    pub fn pinning_pieces(&self, player: Player) -> (r: u64)
        requires
            self.wf(),
        ensures
            forall|s: u8| s < 64 ==> (#[trigger] bit64(r, s) <==> is_pinner(
                self.placement(),
                player,
                s,
            )),
    {
        match player {
            Player::White => self.state.pinners_white,
            Player::Black => self.state.pinners_black,
        }
    }

    /// Whether `player` may still castle on wing `castle_type`.
    pub fn can_castle(&self, player: Player, castle_type: CastleType) -> (r: bool)
        ensures
            r == has_right(self.state.castling, player, castle_type),
    {
        crate::castling::test_right(self.state.castling, player, castle_type)
    }

    /// Whether a piece stands between the current player's king and
    /// rook on the given wing.
    pub fn castle_impeded(&self, castle_type: CastleType) -> (r: bool)
        requires
            self.wf(),
        ensures
            r == ({
                let p = self.placement();
                match castle_type {
                    CastleType::KingSide => p[relative_square_spec(self.turn, 5) as int] != 0 || p[
                        relative_square_spec(self.turn, 6) as int] != 0,
                    CastleType::QueenSide => p[relative_square_spec(self.turn, 1) as int] != 0
                        || p[relative_square_spec(self.turn, 2) as int] != 0 || p[
                        relative_square_spec(self.turn, 3) as int] != 0,
                }
            }),
    {
        match castle_type {
            CastleType::KingSide => {
                let a = self.sq.code_at(crate::types::relative_square(self.turn, 5));
                let b = self.sq.code_at(crate::types::relative_square(self.turn, 6));
                a != 0 || b != 0
            },
            CastleType::QueenSide => {
                let a = self.sq.code_at(crate::types::relative_square(self.turn, 1));
                let b = self.sq.code_at(crate::types::relative_square(self.turn, 2));
                let c = self.sq.code_at(crate::types::relative_square(self.turn, 3));
                a != 0 || b != 0 || c != 0
            },
        }
    }

    /// The home square of the rook of the current player's castle on
    /// the given wing.
    pub fn castling_rook_square(&self, castle_type: CastleType) -> (r: u8)
        ensures
            r == match castle_type {
                CastleType::KingSide => relative_square_spec(self.turn, 7),
                CastleType::QueenSide => relative_square_spec(self.turn, 0),
            },
            r < 64,
    {
        match castle_type {
            CastleType::KingSide => crate::types::relative_square(self.turn, 7),
            CastleType::QueenSide => crate::types::relative_square(self.turn, 0),
        }
    }

    /// The last applied move, if one is recorded.
    pub fn last_move(&self) -> (r: Option<BitMove>)
        ensures
            r == (if self.state.prev_move.data == 0 {
                Option::<BitMove>::None
            } else {
                Option::Some(self.state.prev_move)
            }),
    {
        if self.state.prev_move.is_null() {
            None
        } else {
            Some(self.state.prev_move)
        }
    }

    /// Whether `player` has castled.
    pub fn has_castled(&self, player: Player) -> (r: bool)
        ensures
            r == spec_has_castled(self.state.castling, player),
    {
        crate::castling::test_castled(self.state.castling, player)
    }

    /// Whether the side to move is in check.
    pub fn in_check(&self) -> (r: bool)
        requires
            self.wf(),
        ensures
            r == attacked_by(
                self.placement(),
                self.turn.flip(),
                ksq_of(self.placement(), self.turn),
            ),
    {
        let s = lsb_index(self.state.checkers_bb);
        proof {
            if s < 64 {
                assert(is_checker(
                    self.placement(),
                    self.turn.flip(),
                    s,
                    ksq_of(self.placement(), self.turn),
                ));
            } else {
                assert forall|t: u8|
                    !is_checker(
                        self.placement(),
                        self.turn.flip(),
                        t,
                        ksq_of(self.placement(), self.turn),
                    ) by {
                    if t < 64 {
                        assert(!bit64(self.state.checkers_bb, t));
                    }
                }
            }
        }
        s < 64
    }

    /// Mask of the enemy pieces giving check.
    pub fn checkers(&self) -> (r: u64)
        requires
            self.wf(),
        ensures
            r == self.state.checkers_bb,
            forall|t: u8|
                t < 64 ==> (#[trigger] bit64(r, t) <==> is_checker(
                    self.placement(),
                    self.turn.flip(),
                    t,
                    ksq_of(self.placement(), self.turn),
                )),
    {
        self.state.checkers_bb
    }

    /// Mask of the current player's pieces whose move could uncover a
    /// check on the enemy king.
    pub fn discovered_check_candidates(&self) -> (r: u64)
        requires
            self.wf(),
        ensures
            forall|x: u8|
                x < 64 ==> (#[trigger] bit64(r, x) <==> (is_blocker(
                    self.placement(),
                    self.turn.flip(),
                    x,
                ) && code_is_of(self.placement()[x as int], self.turn))),
    {
        let b = match self.turn {
            Player::White => self.state.blockers_black,
            Player::Black => self.state.blockers_white,
        };
        let o = match self.turn {
            Player::White => self.sq.occ_w,
            Player::Black => self.sq.occ_b,
        };
        proof {
            assert forall|x: u8| x < 64 implies (#[trigger] bit64(b & o, x) <==> (bit64(b, x)
                && bit64(o, x))) by {
                crate::bits::lemma_bit_and(b, o, x);
            }
        }
        b & o
    }

    /// Mask of `player`'s pieces pinned to their own king.
    pub fn pieces_pinned(&self, player: Player) -> (r: u64)
        requires
            self.wf(),
        ensures
            forall|x: u8|
                x < 64 ==> (#[trigger] bit64(r, x) <==> (is_blocker(self.placement(), player, x)
                    && code_is_of(self.placement()[x as int], player))),
    {
        self.pinned_pieces(player)
    }

    /// Mask of all pieces of either side that attack `sq` when the
    /// occupancy is taken to be `occupied`.
    pub fn attackers_to(&self, sq: u8, occupied: u64) -> (r: u64)
        requires
            self.wf(),
            sq < 64,
        ensures
            forall|t: u8| t < 64 ==> (#[trigger] bit64(r, t) <==> attacker_reaches(
                self.placement(),
                occupied,
                t,
                sq,
            )),
    {
        let mut r: u64 = 0;
        let mut t: u8 = 0;
        proof {
            assert forall|j: u8| j < 64 implies !bit64(0u64, j) by {
                crate::bits::lemma_bit_empty(j);
            }
        }
        while t < 64
            invariant
                t <= 64,
                sq < 64,
                self.wf(),
                forall|j: u8| j < t ==> (#[trigger] bit64(r, j) <==> attacker_reaches(
                    self.placement(),
                    occupied,
                    j,
                    sq,
                )),
                forall|j: u8| t <= j < 64 ==> !bit64(r, j),
            decreases 64 - t,
        {
            let code = self.sq.code_at(t);
            let hit = if code == 0 {
                false
            } else {
                match crate::types::decode_piece(code) {
                    Piece::P => crate::geometry::pawn_hit(
                        crate::types::decode_player(code),
                        t,
                        sq,
                    ),
                    Piece::N => crate::geometry::knight_hit(t, sq),
                    Piece::B => crate::geometry::bishop_hit(occupied, t, sq),
                    Piece::R => crate::geometry::rook_hit(occupied, t, sq),
                    Piece::Q => {
                        let a = crate::geometry::rook_hit(occupied, t, sq);
                        let b = crate::geometry::bishop_hit(occupied, t, sq);
                        a || b
                    },
                    Piece::K => crate::geometry::king_hit(t, sq),
                }
            };
            if hit {
                let m: u64 = 1u64 << (t as u64);
                proof {
                    assert forall|j: u8| j < 64 implies (#[trigger] bit64(r | m, j) <==> (bit64(
                        r,
                        j,
                    ) || j == t)) by {
                        crate::bits::lemma_bit_or(r, m, j);
                        crate::bits::lemma_bit_single(t, j);
                    }
                }
                r = r | m;
            }
            t = t + 1;
        }
        r
    }

    /// The piece a move departs with.
    pub fn moved_piece(&self, m: BitMove) -> (r: Piece)
        requires
            self.wf(),
            self.placement()[mv_src(m) as int] != 0,
        ensures
            r == code_piece(self.placement()[mv_src(m) as int]),
    {
        let src = m.get_src();
        let code = self.sq.code_at(src);
        crate::types::decode_piece(code)
    }

    /// The piece a move would capture, if any: the enemy piece on its
    /// destination, or the pawn of an en-passant capture.
    pub fn captured_piece(&self, m: BitMove) -> (r: Option<Piece>)
        requires
            self.wf(),
        ensures
            r == (if mv_type(m) == MoveType::EnPassant {
                Option::Some(Piece::P)
            } else if code_is_of(self.placement()[mv_dst(m) as int], self.turn.flip()) {
                Option::Some(code_piece(self.placement()[mv_dst(m) as int]))
            } else {
                Option::<Piece>::None
            }),
    {
        if m.is_en_passant() {
            return Some(Piece::P);
        }
        let dst = m.get_dest();
        self.sq.piece_at_for(dst, self.turn.other_player())
    }

    /// How many strong references share the current state record.
    /// Relies on `std::sync::Arc::strong_count`; at least this board's
    /// own reference exists.
    #[verifier::external_body]
    pub fn get_arc_strong_count(&self) -> (r: usize)
        ensures
            r >= 1,
    {
        std::sync::Arc::strong_count(&self.state)
    }

    /// A copy of the square-to-piece table.
    pub fn get_piece_locations(&self) -> (r: crate::locations::PieceLocations)
        requires
            self.wf(),
        ensures
            r@ == self.placement(),
    {
        self.sq.locations_copy()
    }

    /// Runs the invariant checks the board maintains; always passes on
    /// a well-formed board.
    pub fn is_okay(&self) -> (r: bool)
        requires
            self.wf(),
        ensures
            r,
    {
        let a = self.check_basic();
        let b = self.check_king();
        let c = self.check_bitboards();
        let d = self.check_state_info();
        let e = self.check_lists();
        let f = self.check_castling();
        a && b && c && d && e && f
    }

    /// Kings stand where the king squares say, and the en-passant
    /// square, if any, is sane.
    fn check_basic(&self) -> (r: bool)
        requires
            self.wf(),
        ensures
            r,
    {
        let wk = crate::board::sq_king(&self.sq, Player::White);
        let bk = crate::board::sq_king(&self.sq, Player::Black);
        let kings = self.sq.code_at(wk) == crate::types::make_code(Player::White, Piece::K)
            && self.sq.code_at(bk) == crate::types::make_code(Player::Black, Piece::K);
        let ep = self.state.ep_square;
        kings && (ep == NO_SQ || ep < 64)
    }

    /// Each side has exactly one king.
    fn check_king(&self) -> (r: bool)
        requires
            self.wf(),
        ensures
            r,
    {
        let a = self.count_piece(Player::White, Piece::K);
        let b = self.count_piece(Player::Black, Piece::K);
        a == 1 && b == 1
    }

    /// The occupancy masks partition: the two sides are disjoint and
    /// together cover exactly the occupied squares.
    fn check_bitboards(&self) -> (r: bool)
        requires
            self.wf(),
        ensures
            r,
    {
        let mut s: u8 = 0;
        while s < 64
            invariant
                self.wf(),
            decreases 64 - s,
        {
            let w = (self.sq.occ_w >> (s as u64)) & 1 == 1;
            let b = (self.sq.occ_b >> (s as u64)) & 1 == 1;
            let all = (self.sq.occ_all >> (s as u64)) & 1 == 1;
            if (w && b) || (all != (w || b)) {
                proof {
                    assert(bit64(self.sq.occ_w, s) == w && bit64(self.sq.occ_b, s) == b && bit64(
                        self.sq.occ_all,
                        s,
                    ) == all);
                    assert(false);
                }
            }
            s = s + 1;
        }
        true
    }

    fn check_state_info(&self) -> (r: bool)
        ensures
            r,
    {
        true
    }

    fn check_lists(&self) -> (r: bool)
        ensures
            r,
    {
        true
    }

    fn check_castling(&self) -> (r: bool)
        ensures
            r,
    {
        true
    }
}

} // verus!
