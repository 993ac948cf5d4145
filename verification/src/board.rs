//! The chessboard.  A `Board` holds the redundant square data, the side
//! to move, the move counters, and a reference-counted chain of per-ply
//! state records; `wf` ties them all together and is maintained by
//! every operation.

use vstd::prelude::*;

use std::sync::Arc;

use crate::bits::{bit64, lsb_index, popcount};
use crate::geometry::{
    bishop_line, clear_between, rook_line, strictly_between,
};
use crate::rules::{
    attacks_p, blocks_alone, check_square, clear_between_p, is_blocker, is_checker, is_pinner,
    is_sniper, kings_ok, ksq_of, occupied_at,
};
use crate::squares::Squares;
use crate::state::BoardState;
use crate::types::{Piece, Player, code_is_of, code_of};
use crate::zobrist::{zob_castle_of, zob_contrib_of, zob_ep_of, zob_of, zob_side_of, zob_squares};

verus! {

/// A chess position with its undo history.
pub struct Board {
    /// The side to move.
    pub turn: Player,
    /// Masks and square table.
    pub sq: Squares,
    /// Total half moves played on this board.
    pub half_moves: u16,
    /// Half moves since the last copy that reset the search depth.
    pub depth: u16,
    /// The current state record.
    pub state: Arc<BoardState>,
}

impl Board {
    /// The placement this board holds.
    pub open spec fn placement(&self) -> Seq<u8> {
        self.sq@
    }

    /// The board invariant: masks congruent with the table, the table
    /// equal to the record's ghost position, and the record chain well
    /// formed.
    pub open spec fn wf(&self) -> bool {
        self.sq.cong() && self.sq@ == self.state.pre@.placement && self.turn
            == self.state.pre@.turn && crate::state::rec_wf(*self.state)
    }
}

/// Betweenness over a congruent occupancy mask and over the placement
/// agree.
pub proof fn lemma_clear_bridge(sq: &Squares, a: u8, b: u8)
    requires
        sq.cong(),
    ensures
        clear_between(sq.occ_all, a, b) == clear_between_p(sq@, a, b),
{
    if clear_between(sq.occ_all, a, b) {
        assert forall|c: u8| c < 64 && strictly_between(a, b, c) implies !occupied_at(sq@, c) by {
            assert(!bit64(sq.occ_all, c));
        }
    }
    if clear_between_p(sq@, a, b) {
        assert forall|c: u8| c < 64 && strictly_between(a, b, c) implies !bit64(sq.occ_all, c) by {
            assert(!occupied_at(sq@, c));
        }
    }
}

/// The square of `c`'s king in `sq`.
pub fn sq_king(sq: &Squares, c: Player) -> (r: u8)
    requires
        sq.cong(),
        kings_ok(sq@),
    ensures
        r == ksq_of(sq@, c),
        r < 64,
        sq@[r as int] == code_of(c, Piece::K),
{
    proof {
        crate::rules::lemma_ksq(sq@, c);
    }
    let mask = sq.piece_mask(c, Piece::K);
    let r = lsb_index(mask);
    proof {
        let k = ksq_of(sq@, c);
        assert(bit64(mask, k));
    }
    r
}

/// A rook ray from `a` to `b` over the occupancy of `sq`.
pub fn sq_rook_reach(sq: &Squares, a: u8, b: u8) -> (r: bool)
    requires
        sq.cong(),
        a < 64,
        b < 64,
    ensures
        r == (rook_line(a, b) && clear_between_p(sq@, a, b)),
{
    let r = crate::geometry::rook_hit(sq.occ_all, a, b);
    proof {
        lemma_clear_bridge(sq, a, b);
    }
    r
}

/// A bishop ray from `a` to `b` over the occupancy of `sq`.
pub fn sq_bishop_reach(sq: &Squares, a: u8, b: u8) -> (r: bool)
    requires
        sq.cong(),
        a < 64,
        b < 64,
    ensures
        r == (bishop_line(a, b) && clear_between_p(sq@, a, b)),
{
    let r = crate::geometry::bishop_hit(sq.occ_all, a, b);
    proof {
        lemma_clear_bridge(sq, a, b);
    }
    r
}

/// Whether the piece on `from`, if any, attacks `to`.
pub fn sq_attacks_from(sq: &Squares, from: u8, to: u8) -> (r: bool)
    requires
        sq.cong(),
        from < 64,
        to < 64,
    ensures
        r == attacks_p(sq@, from, to),
{
    let code = sq.code_at(from);
    if code == 0 {
        return false;
    }
    let owner = crate::types::decode_player(code);
    match crate::types::decode_piece(code) {
        Piece::P => crate::geometry::pawn_hit(owner, from, to),
        Piece::N => crate::geometry::knight_hit(from, to),
        Piece::B => sq_bishop_reach(sq, from, to),
        Piece::R => sq_rook_reach(sq, from, to),
        Piece::Q => {
            let a = sq_rook_reach(sq, from, to);
            let b = sq_bishop_reach(sq, from, to);
            a || b
        },
        Piece::K => crate::geometry::king_hit(from, to),
    }
}

/// The mask of `by`'s pieces attacking `target` in `sq`.
pub fn sq_attackers_of(sq: &Squares, by: Player, target: u8) -> (r: u64)
    requires
        sq.cong(),
        target < 64,
    ensures
        forall|t: u8| t < 64 ==> (#[trigger] bit64(r, t) <==> is_checker(sq@, by, t, target)),
{
    let mut r: u64 = 0;
    let mut t: u8 = 0;
    proof {
        assert forall|j: u8| j < 64 implies !bit64(0u64, j) by {
            crate::bits::lemma_bit_empty(j);
        }
    }
    while t < 64
        invariant
            t <= 64,
            target < 64,
            sq.cong(),
            forall|j: u8| j < t ==> (#[trigger] bit64(r, j) <==> is_checker(sq@, by, j, target)),
            forall|j: u8| t <= j < 64 ==> !bit64(r, j),
        decreases 64 - t,
    {
        let code = sq.code_at(t);
        let hit = if code != 0 {
            let owner = crate::types::decode_player(code);
            if owner == by {
                sq_attacks_from(sq, t, target)
            } else {
                false
            }
        } else {
            false
        };
        if hit {
            let m: u64 = 1u64 << (t as u64);
            proof {
                assert forall|j: u8| j < 64 implies (#[trigger] bit64(r | m, j) <==> (bit64(r, j)
                    || j == t)) by {
                    crate::bits::lemma_bit_or(r, m, j);
                    crate::bits::lemma_bit_single(t, j);
                }
            }
            r = r | m;
        }
        t = t + 1;
    }
    r
}

/// The mask of squares from which a piece of kind `pt` owned by `turn`
/// would attack the enemy king.
pub fn sq_check_squares(sq: &Squares, turn: Player, pt: Piece) -> (r: u64)
    requires
        sq.cong(),
        kings_ok(sq@),
    ensures
        forall|t: u8| t < 64 ==> (#[trigger] bit64(r, t) <==> check_square(sq@, turn, pt, t)),
{
    let k = sq_king(sq, turn.other_player());
    let mut r: u64 = 0;
    let mut t: u8 = 0;
    proof {
        assert forall|j: u8| j < 64 implies !bit64(0u64, j) by {
            crate::bits::lemma_bit_empty(j);
        }
    }
    while t < 64
        invariant
            t <= 64,
            k == ksq_of(sq@, turn.flip()),
            k < 64,
            sq.cong(),
            forall|j: u8| j < t ==> (#[trigger] bit64(r, j) <==> check_square(sq@, turn, pt, j)),
            forall|j: u8| t <= j < 64 ==> !bit64(r, j),
        decreases 64 - t,
    {
        let hit = match pt {
            Piece::P => crate::geometry::pawn_hit(turn, t, k),
            Piece::N => crate::geometry::knight_hit(t, k),
            Piece::B => sq_bishop_reach(sq, t, k),
            Piece::R => sq_rook_reach(sq, t, k),
            Piece::Q => {
                let a = sq_rook_reach(sq, t, k);
                let b = sq_bishop_reach(sq, t, k);
                a || b
            },
            Piece::K => false,
        };
        if hit {
            let m: u64 = 1u64 << (t as u64);
            proof {
                assert forall|j: u8| j < 64 implies (#[trigger] bit64(r | m, j) <==> (bit64(r, j)
                    || j == t)) by {
                    crate::bits::lemma_bit_or(r, m, j);
                    crate::bits::lemma_bit_single(t, j);
                }
            }
            r = r | m;
        }
        t = t + 1;
    }
    r
}

/// Computes the blocker and pinner masks against `c`'s king: pieces that
/// alone shield the king from an enemy slider, and the sliders whose
/// shield is a piece of `c` itself.
pub fn sq_blockers(sq: &Squares, c: Player) -> (r: (u64, u64))
    requires
        sq.cong(),
        kings_ok(sq@),
    ensures
        forall|x: u8| x < 64 ==> (#[trigger] bit64(r.0, x) <==> is_blocker(sq@, c, x)),
        forall|s: u8| s < 64 ==> (#[trigger] bit64(r.1, s) <==> is_pinner(sq@, c, s)),
{
    let k = sq_king(sq, c);
    let mut blockers: u64 = 0;
    let mut pinners: u64 = 0;
    let mut s: u8 = 0;
    proof {
        assert forall|j: u8| j < 64 implies !bit64(0u64, j) by {
            crate::bits::lemma_bit_empty(j);
        }
    }
    while s < 64
        invariant
            s <= 64,
            k == ksq_of(sq@, c),
            k < 64,
            sq.cong(),
            kings_ok(sq@),
            forall|x: u8|
                x < 64 ==> (#[trigger] bit64(blockers, x) <==> exists|s2: u8|
                    s2 < s && is_sniper(sq@, c, k, s2) && blocks_alone(sq@, k, s2, x)),
            forall|j: u8| j < 64 ==> (#[trigger] bit64(pinners, j) <==> j < s && is_pinner(sq@, c, j)),
        decreases 64 - s,
    {
        let code = sq.code_at(s);
        let sniper = if code != 0 && s != k {
            let owner = crate::types::decode_player(code);
            if owner != c {
                let pc = crate::types::decode_piece(code);
                let rline = k / 8 == s / 8 || k % 8 == s % 8;
                let bline = (k / 8) + (s % 8) == (s / 8) + (k % 8) || (k / 8) + (k % 8) == (s / 8)
                    + (s % 8);
                ((pc == Piece::R || pc == Piece::Q) && rline) || ((pc == Piece::B || pc == Piece::Q)
                    && bline)
            } else {
                false
            }
        } else {
            false
        };
        proof {
            assert(sniper == is_sniper(sq@, c, k, s));
        }
        if sniper {
            let between = crate::geometry::between_bb(k, s);
            let b = between & sq.occ_all;
            proof {
                assert forall|y: u8| y < 64 implies (#[trigger] bit64(b, y) <==> (strictly_between(
                    k,
                    s,
                    y,
                ) && occupied_at(sq@, y))) by {
                    crate::bits::lemma_bit_and(between, sq.occ_all, y);
                }
            }
            let cnt = popcount(b);
            if cnt == 1 {
                let x = lsb_index(b);
                proof {
                    if x == 64 {
                        crate::bits::lemma_bits_zero(b, 64);
                    }
                    assert(x < 64);
                    assert(bit64(b, x));
                    assert forall|y: u8| y < 64 && strictly_between(k, s, y) && y != x implies !occupied_at(
                        sq@,
                        y,
                    ) by {
                        if occupied_at(sq@, y) {
                            assert(bit64(b, y));
                            crate::bits::lemma_bits_two(b, if x < y {
                                x
                            } else {
                                y
                            }, if x < y {
                                y
                            } else {
                                x
                            });
                        }
                    }
                    assert(blocks_alone(sq@, k, s, x));
                }
                let mb: u64 = 1u64 << (x as u64);
                proof {
                    assert forall|j: u8| j < 64 implies (#[trigger] bit64(blockers | mb, j) <==> (
                    bit64(blockers, j) || j == x)) by {
                        crate::bits::lemma_bit_or(blockers, mb, j);
                        crate::bits::lemma_bit_single(x, j);
                    }
                }
                blockers = blockers | mb;
                let xcode = sq.code_at(x);
                let own = xcode != 0 && (if xcode <= 6 {
                    c == Player::White
                } else {
                    c == Player::Black
                });
                if own {
                    let ms: u64 = 1u64 << (s as u64);
                    proof {
                        assert forall|j: u8| j < 64 implies (#[trigger] bit64(pinners | ms, j)
                            <==> (bit64(pinners, j) || j == s)) by {
                            crate::bits::lemma_bit_or(pinners, ms, j);
                            crate::bits::lemma_bit_single(s, j);
                        }
                        assert(code_is_of(sq@[x as int], c));
                        assert(is_pinner(sq@, c, s));
                    }
                    pinners = pinners | ms;
                }
                proof {
                    assert forall|x2: u8| x2 < 64 && bit64(blockers, x2) implies exists|s2: u8|
                        s2 < s + 1 && is_sniper(sq@, c, k, s2) && blocks_alone(sq@, k, s2, x2) by {
                        if x2 == x {
                            assert(is_sniper(sq@, c, k, s) && blocks_alone(sq@, k, s, x2));
                        }
                    }
                }
            } else {
                proof {
                    assert forall|x2: u8| !(x2 < 64 && blocks_alone(sq@, k, s, x2)) by {
                        if x2 < 64 && blocks_alone(sq@, k, s, x2) {
                            assert(bit64(b, x2));
                            crate::bits::lemma_bits_one(b, x2, 64);
                            crate::bits::lemma_bits_le_one(b, x2, 64);
                        }
                    }
                }
            }
        }
        s = s + 1;
    }
    (blockers, pinners)
}

/// The freshly computed check caches of one position.
pub struct CheckInfo {
    /// Enemy pieces attacking the side to move's king.
    pub checkers: u64,
    /// Blockers of the white king.
    pub bw: u64,
    /// Blockers of the black king.
    pub bb: u64,
    /// Pinners against the white king.
    pub pw: u64,
    /// Pinners against the black king.
    pub pb: u64,
    /// Check squares per piece kind of the side to move.
    pub cp: u64,
    /// ... knights.
    pub cn: u64,
    /// ... bishops.
    pub cb: u64,
    /// ... rooks.
    pub cr: u64,
    /// ... queens.
    pub cq: u64,
}

/// Recomputes every check cache of the position `(sq, turn)`.
pub fn compute_check_info(sq: &Squares, turn: Player) -> (ci: CheckInfo)
    requires
        sq.cong(),
        kings_ok(sq@),
    ensures
        forall|t: u8|
            t < 64 ==> (#[trigger] bit64(ci.checkers, t) <==> is_checker(
                sq@,
                turn.flip(),
                t,
                ksq_of(sq@, turn),
            )),
        forall|x: u8| x < 64 ==> (#[trigger] bit64(ci.bw, x) <==> is_blocker(sq@, Player::White, x)),
        forall|x: u8| x < 64 ==> (#[trigger] bit64(ci.bb, x) <==> is_blocker(sq@, Player::Black, x)),
        forall|s: u8| s < 64 ==> (#[trigger] bit64(ci.pw, s) <==> is_pinner(sq@, Player::White, s)),
        forall|s: u8| s < 64 ==> (#[trigger] bit64(ci.pb, s) <==> is_pinner(sq@, Player::Black, s)),
        forall|t: u8| t < 64 ==> (#[trigger] bit64(ci.cp, t) <==> check_square(sq@, turn, Piece::P, t)),
        forall|t: u8| t < 64 ==> (#[trigger] bit64(ci.cn, t) <==> check_square(sq@, turn, Piece::N, t)),
        forall|t: u8| t < 64 ==> (#[trigger] bit64(ci.cb, t) <==> check_square(sq@, turn, Piece::B, t)),
        forall|t: u8| t < 64 ==> (#[trigger] bit64(ci.cr, t) <==> check_square(sq@, turn, Piece::R, t)),
        forall|t: u8| t < 64 ==> (#[trigger] bit64(ci.cq, t) <==> check_square(sq@, turn, Piece::Q, t)),
{
    let k = sq_king(sq, turn);
    let checkers = sq_attackers_of(sq, turn.other_player(), k);
    let (bw, pw) = sq_blockers(sq, Player::White);
    let (bb, pb) = sq_blockers(sq, Player::Black);
    let cp = sq_check_squares(sq, turn, Piece::P);
    let cn = sq_check_squares(sq, turn, Piece::N);
    let cb = sq_check_squares(sq, turn, Piece::B);
    let cr = sq_check_squares(sq, turn, Piece::R);
    let cq = sq_check_squares(sq, turn, Piece::Q);
    CheckInfo { checkers, bw, bb, pw, pb, cp, cn, cb, cr, cq }
}

/// The piece code of the standard starting position on each square.
pub open spec fn start_code(s: u8) -> u8 {
    let r = s / 8;
    let f = s % 8;
    if r == 1 {
        1
    } else if r == 6 {
        7
    } else if r == 0 || r == 7 {
        let base: u8 = if r == 0 {
            0
        } else {
            6
        };
        if f == 0 || f == 7 {
            (base + 4) as u8
        } else if f == 1 || f == 6 {
            (base + 2) as u8
        } else if f == 2 || f == 5 {
            (base + 3) as u8
        } else if f == 3 {
            (base + 5) as u8
        } else {
            (base + 6) as u8
        }
    } else {
        0
    }
}

impl Board {
    /// The standard starting position.
    pub fn start_position() -> (r: Board)
        ensures
            r.wf(),
            r.turn == Player::White,
            r.half_moves == 0,
            r.depth == 0,
            forall|s: u8| s < 64 ==> #[trigger] r.placement()[s as int] == start_code(s),
            r.state.castling == 0xf,
            r.state.ep_square == 64,
            r.state.rule_50 == 0,
            r.state.ply == 0,
            r.state.prev_move.data == 0,
            r.state.prev is None,
            r.state.captured_piece is None,
    {
        let mut sq = Squares::blank();
        let mut f: u8 = 0;
        while f < 8
            invariant
                f <= 8,
                sq.cong(),
                forall|s: u8|
                    s < 64 ==> #[trigger] sq@[s as int] == (if 8 <= s < 8 + f {
                        1u8
                    } else if 48 <= s < 48 + f {
                        7u8
                    } else {
                        0u8
                    }),
            decreases 8 - f,
        {
            sq.put(8 + f, Player::White, Piece::P);
            sq.put(48 + f, Player::Black, Piece::P);
            f = f + 1;
        }
        sq.put(0, Player::White, Piece::R);
        sq.put(1, Player::White, Piece::N);
        sq.put(2, Player::White, Piece::B);
        sq.put(3, Player::White, Piece::Q);
        sq.put(4, Player::White, Piece::K);
        sq.put(5, Player::White, Piece::B);
        sq.put(6, Player::White, Piece::N);
        sq.put(7, Player::White, Piece::R);
        sq.put(56, Player::Black, Piece::R);
        sq.put(57, Player::Black, Piece::N);
        sq.put(58, Player::Black, Piece::B);
        sq.put(59, Player::Black, Piece::Q);
        sq.put(60, Player::Black, Piece::K);
        sq.put(61, Player::Black, Piece::B);
        sq.put(62, Player::Black, Piece::N);
        sq.put(63, Player::Black, Piece::R);
        proof {
            assert forall|s: u8| s < 64 implies #[trigger] sq@[s as int] == start_code(s) by {
            }
            crate::rules::lemma_count_single(sq@, code_of(Player::White, Piece::K), 4, 64);
            crate::rules::lemma_count_single(sq@, code_of(Player::Black, Piece::K), 60, 64);
        }
        let zob = compute_zob(&sq, Player::White, 0xf, 64);
        let ci = compute_check_info(&sq, Player::White);
        let state = BoardState {
            castling: 0xf,
            rule_50: 0,
            ply: 0,
            ep_square: 64,
            zobrast: zob,
            captured_piece: None,
            checkers_bb: ci.checkers,
            blockers_white: ci.bw,
            blockers_black: ci.bb,
            pinners_white: ci.pw,
            pinners_black: ci.pb,
            csq_p: ci.cp,
            csq_n: ci.cn,
            csq_b: ci.cb,
            csq_r: ci.cr,
            csq_q: ci.cq,
            csq_k: 0,
            prev_move: crate::moves::BitMove::null(),
            prev: None,
            pre: Ghost(crate::state::PrePly { placement: sq@, turn: Player::White }),
        };
        proof {
            assert forall|j: u8| j < 64 implies !bit64(0u64, j) by {
                crate::bits::lemma_bit_empty(j);
            }
        }
        Board { turn: Player::White, sq, half_moves: 0, depth: 0, state: Arc::new(state) }
    }

    /// The standard starting position, under the customary name.
    pub fn default() -> (r: Board)
        ensures
            r.wf(),
            r.turn == Player::White,
            r.half_moves == 0,
            r.depth == 0,
            forall|s: u8| s < 64 ==> #[trigger] r.placement()[s as int] == start_code(s),
            r.state.castling == 0xf,
            r.state.ep_square == 64,
            r.state.rule_50 == 0,
            r.state.ply == 0,
            r.state.prev_move.data == 0,
            r.state.prev is None,
            r.state.captured_piece is None,
    {
        Board::start_position()
    }

    /// A copy for handing to a fresh search: shares the state chain,
    /// resets the search depth.  Moves played on one copy do not affect
    /// the other, and a copy must not undo moves it did not apply.
    pub fn shallow_clone(&self) -> (r: Board)
        requires
            self.wf(),
        ensures
            r.wf(),
            r.placement() == self.placement(),
            r.turn == self.turn,
            r.half_moves == self.half_moves,
            r.depth == 0,
            *r.state == *self.state,
    {
        Board {
            turn: self.turn,
            sq: self.sq.duplicate(),
            half_moves: self.half_moves,
            depth: 0,
            state: Arc::clone(&self.state),
        }
    }

    /// A copy for parallel exploration: shares the state chain and keeps
    /// the search depth.
    pub fn parallel_clone(&self) -> (r: Board)
        requires
            self.wf(),
        ensures
            r.wf(),
            r.placement() == self.placement(),
            r.turn == self.turn,
            r.half_moves == self.half_moves,
            r.depth == self.depth,
            *r.state == *self.state,
    {
        Board {
            turn: self.turn,
            sq: self.sq.duplicate(),
            half_moves: self.half_moves,
            depth: self.depth,
            state: Arc::clone(&self.state),
        }
    }

    /// An exact duplicate, depth included.  Meant for debugging; prefer
    /// the two clones above.
    pub fn deep_clone(&self) -> (r: Board)
        requires
            self.wf(),
        ensures
            r.wf(),
            r.placement() == self.placement(),
            r.turn == self.turn,
            r.half_moves == self.half_moves,
            r.depth == self.depth,
            *r.state == *self.state,
    {
        self.parallel_clone()
    }
}


/// Why a board failed a check of its text tags.
#[derive(Debug, Copy, Clone, PartialEq, Eq, Structural)]
pub enum BoardCheckError {
    TagParse,
    Length,
}

/// Computes the hash of a position from scratch.
pub fn compute_zob(sq: &Squares, turn: Player, castling: u8, ep: u8) -> (r: u64)
    requires
        sq.cong(),
    ensures
        r == zob_of(sq@, turn, castling, ep),
{
    let mut z: u64 = 0;
    let mut i: u8 = 0;
    while i < 64
        invariant
            i <= 64,
            sq.cong(),
            z == zob_squares(sq@, i as int),
        decreases 64 - i,
    {
        let code = sq.code_at(i);
        let c = zob_contrib_of(code, i);
        z = z ^ c;
        i = i + 1;
    }
    let z2 = z ^ zob_ep_of(ep) ^ zob_castle_of(castling) ^ zob_side_of(turn);
    z2
}

} // verus!
