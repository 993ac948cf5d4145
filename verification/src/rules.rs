//! The move rules at specification level: what a move may do to a
//! placement, what it does to it, which squares attack which, and the
//! counting arguments behind the king and occupancy invariants.

use vstd::prelude::*;

use crate::bits::bit64;
use crate::geometry::{
    bishop_line, clear_between, king_geom, knight_geom, pawn_att_geom, rook_line, strictly_between,
};
use crate::locations::placement_wf;
use crate::moves::{BitMove, MoveType, mv_dst, mv_promo, mv_src, mv_type};
use crate::types::{
    Piece, Player, code_is_of, code_of, code_piece, code_player, file_of, rank_of,
    relative_rank_of, relative_square_spec,
};

verus! {

/// How many entries among the first `n` carry code `c`.
pub open spec fn count_code(p: Seq<u8>, c: u8, n: int) -> int
    decreases n,
{
    if n <= 0 {
        0
    } else {
        count_code(p, c, n - 1) + if p[n - 1] == c {
            1int
        } else {
            0int
        }
    }
}

/// Updating inside the counted range moves the count by the departure
/// and arrival of the code.
pub proof fn lemma_count_update(p: Seq<u8>, j: int, v: u8, c: u8, n: int)
    requires
        0 <= j < p.len(),
        n <= p.len(),
    ensures
        count_code(p.update(j, v), c, n) == if j < n {
            count_code(p, c, n) - (if p[j] == c {
                1int
            } else {
                0int
            }) + (if v == c {
                1int
            } else {
                0int
            })
        } else {
            count_code(p, c, n)
        },
    decreases n,
{
    if n > 0 {
        lemma_count_update(p, j, v, c, n - 1);
    }
}

/// A square carrying the code bounds the count from below.
pub proof fn lemma_count_one(p: Seq<u8>, c: u8, x: int, n: int)
    requires
        0 <= x < n <= p.len(),
        p[x] == c,
    ensures
        count_code(p, c, n) >= 1 + count_code(p, c, x),
        count_code(p, c, x) >= 0,
    decreases n,
{
    lemma_count_nonneg(p, c, x);
    if n == x + 1 {
    } else {
        lemma_count_one(p, c, x, n - 1);
    }
}

/// Counts are never negative.
pub proof fn lemma_count_nonneg(p: Seq<u8>, c: u8, n: int)
    ensures
        count_code(p, c, n) >= 0,
    decreases n,
{
    if n > 0 {
        lemma_count_nonneg(p, c, n - 1);
    }
}

/// Two distinct squares carrying the code push the count to two.
pub proof fn lemma_count_two(p: Seq<u8>, c: u8, x: int, y: int, n: int)
    requires
        0 <= x < y < n <= p.len(),
        p[x] == c,
        p[y] == c,
    ensures
        count_code(p, c, n) >= 2,
{
    lemma_count_one(p, c, x, y);
    lemma_count_mono(p, c, y);
    lemma_count_one(p, c, y, n);
}

proof fn lemma_count_mono(p: Seq<u8>, c: u8, n: int)
    ensures
        count_code(p, c, n) >= count_code(p, c, n - 1),
    decreases n,
{
}

/// A positive count yields a witness square.
pub proof fn lemma_count_witness(p: Seq<u8>, c: u8, n: int) -> (x: int)
    requires
        count_code(p, c, n) >= 1,
        n <= p.len(),
    ensures
        0 <= x < n,
        p[x] == c,
    decreases n,
{
    if n <= 0 {
        0
    } else if p[n - 1] == c {
        n - 1
    } else {
        lemma_count_witness(p, c, n - 1)
    }
}

/// A code absent from the counted range counts zero.
pub proof fn lemma_count_absent(p: Seq<u8>, c: u8, n: int)
    requires
        forall|i: int| 0 <= i < n ==> #[trigger] p[i] != c,
    ensures
        count_code(p, c, n) == 0,
    decreases n,
{
    if n > 0 {
        lemma_count_absent(p, c, n - 1);
    }
}

/// A code standing on exactly one square counts one.
pub proof fn lemma_count_single(p: Seq<u8>, c: u8, x: int, n: int)
    requires
        0 <= x < n,
        p[x] == c,
        forall|i: int| 0 <= i < n && i != x ==> #[trigger] p[i] != c,
    ensures
        count_code(p, c, n) == 1,
    decreases n,
{
    if n - 1 == x {
        lemma_count_absent(p, c, n - 1);
    } else {
        lemma_count_single(p, c, x, n - 1);
    }
}

/// A mask that marks exactly the squares carrying a code counts the
/// same as the code.
pub proof fn lemma_bits_code_count(m: u64, p: Seq<u8>, c: u8, n: int)
    requires
        n <= 64,
        forall|s: u8| s < 64 ==> (#[trigger] bit64(m, s) <==> p[s as int] == c),
    ensures
        crate::bits::count_bits_upto(m, n) == count_code(p, c, n),
    decreases n,
{
    if n > 0 {
        lemma_bits_code_count(m, p, c, n - 1);
        assert(bit64(m, (n - 1) as u8) <==> p[n - 1] == c);
    }
}

/// How many of the first `n` squares hold a piece of player `c`.
pub open spec fn count_of_player(p: Seq<u8>, c: Player, n: int) -> int
    decreases n,
{
    if n <= 0 {
        0
    } else {
        count_of_player(p, c, n - 1) + if code_is_of(p[n - 1], c) {
            1int
        } else {
            0int
        }
    }
}

/// How many of the first `n` squares are occupied.
pub open spec fn count_occupied(p: Seq<u8>, n: int) -> int
    decreases n,
{
    if n <= 0 {
        0
    } else {
        count_occupied(p, n - 1) + if p[n - 1] != 0 {
            1int
        } else {
            0int
        }
    }
}

/// A mask that marks exactly one player's squares counts that player's
/// pieces.
pub proof fn lemma_bits_player_count(m: u64, p: Seq<u8>, c: Player, n: int)
    requires
        n <= 64,
        forall|s: u8| s < 64 ==> (#[trigger] bit64(m, s) <==> code_is_of(p[s as int], c)),
    ensures
        crate::bits::count_bits_upto(m, n) == count_of_player(p, c, n),
    decreases n,
{
    if n > 0 {
        lemma_bits_player_count(m, p, c, n - 1);
        assert(bit64(m, (n - 1) as u8) <==> code_is_of(p[n - 1], c));
    }
}

/// A mask that marks exactly the occupied squares counts them.
pub proof fn lemma_bits_occupied_count(m: u64, p: Seq<u8>, n: int)
    requires
        n <= 64,
        forall|s: u8| s < 64 ==> (#[trigger] bit64(m, s) <==> p[s as int] != 0),
    ensures
        crate::bits::count_bits_upto(m, n) == count_occupied(p, n),
    decreases n,
{
    if n > 0 {
        lemma_bits_occupied_count(m, p, n - 1);
        assert(bit64(m, (n - 1) as u8) <==> p[n - 1] != 0);
    }
}

/// When each side has one king, this is its square.
pub open spec fn ksq_of(p: Seq<u8>, c: Player) -> u8 {
    choose|s: u8| s < 64 && p[s as int] == code_of(c, Piece::K)
}

/// One king per side, as a predicate on the placement.
pub open spec fn kings_ok(p: Seq<u8>) -> bool {
    count_code(p, code_of(Player::White, Piece::K), 64) == 1 && count_code(
        p,
        code_of(Player::Black, Piece::K),
        64,
    ) == 1
}

/// With one king per side the king square is characterised exactly.
pub proof fn lemma_ksq(p: Seq<u8>, c: Player)
    requires
        p.len() == 64,
        kings_ok(p),
    ensures
        ksq_of(p, c) < 64,
        p[ksq_of(p, c) as int] == code_of(c, Piece::K),
        forall|s: u8| s < 64 && p[s as int] == code_of(c, Piece::K) ==> s == ksq_of(p, c),
{
    let code = code_of(c, Piece::K);
    assert(count_code(p, code, 64) == 1);
    let x = lemma_count_witness(p, code, 64);
    assert(p[x] == code);
    assert(x < 64);
    assert((x as u8) < 64 && p[(x as u8) as int] == code);
    assert(exists|s: u8| s < 64 && p[s as int] == code);
    let k = ksq_of(p, c);
    assert(k < 64 && p[k as int] == code);
    assert forall|s: u8| s < 64 && p[s as int] == code implies s == k by {
        if s != k {
            if (s as int) < (k as int) {
                lemma_count_two(p, code, s as int, k as int, 64);
            } else {
                lemma_count_two(p, code, k as int, s as int, 64);
            }
        }
    }
}

/// The square an en-passant capture removes the enemy pawn from.
pub open spec fn ep_cap_sq(us: Player, to: u8) -> u8 {
    match us {
        Player::White => (to - 8) as u8,
        Player::Black => (to + 8) as u8,
    }
}

/// Occupancy of a placement square.
pub open spec fn occupied_at(p: Seq<u8>, s: u8) -> bool {
    p[s as int] != 0
}

/// No occupied square of placement `p` strictly between `a` and `b`.
pub open spec fn clear_between_p(p: Seq<u8>, a: u8, b: u8) -> bool {
    forall|c: u8| c < 64 && strictly_between(a, b, c) ==> !occupied_at(p, c)
}

/// The piece standing on `from` reaches `to`, with betweenness taken
/// over the occupancy mask `occ`.
pub open spec fn attacker_reaches(p: Seq<u8>, occ: u64, from: u8, to: u8) -> bool {
    let c = p[from as int];
    from < 64 && to < 64 && 1 <= c <= 12 && match code_piece(c) {
        Piece::P => pawn_att_geom(code_player(c), from, to),
        Piece::N => knight_geom(from, to),
        Piece::B => bishop_line(from, to) && clear_between(occ, from, to),
        Piece::R => rook_line(from, to) && clear_between(occ, from, to),
        Piece::Q => (rook_line(from, to) || bishop_line(from, to)) && clear_between(occ, from, to),
        Piece::K => king_geom(from, to),
    }
}

/// The piece standing on `from` reaches `to`, with betweenness taken
/// over the placement itself.
pub open spec fn attacks_p(p: Seq<u8>, from: u8, to: u8) -> bool {
    let c = p[from as int];
    from < 64 && to < 64 && 1 <= c <= 12 && match code_piece(c) {
        Piece::P => pawn_att_geom(code_player(c), from, to),
        Piece::N => knight_geom(from, to),
        Piece::B => bishop_line(from, to) && clear_between_p(p, from, to),
        Piece::R => rook_line(from, to) && clear_between_p(p, from, to),
        Piece::Q => (rook_line(from, to) || bishop_line(from, to)) && clear_between_p(p, from, to),
        Piece::K => king_geom(from, to),
    }
}

/// `t` holds a piece of `by` that attacks square `sq` of placement `p`.
pub open spec fn is_checker(p: Seq<u8>, by: Player, t: u8, sq: u8) -> bool {
    t < 64 && code_is_of(p[t as int], by) && attacks_p(p, t, sq)
}

/// Square `sq` of placement `p` is attacked by some piece of `by`.
pub open spec fn attacked_by(p: Seq<u8>, by: Player, sq: u8) -> bool {
    exists|t: u8| is_checker(p, by, t, sq)
}

/// An enemy slider aimed at `k` over an otherwise empty board.
pub open spec fn is_sniper(p: Seq<u8>, c: Player, k: u8, s: u8) -> bool {
    s < 64 && code_is_of(p[s as int], c.flip()) && ((rook_line(k, s) && (code_piece(p[s as int])
        == Piece::R || code_piece(p[s as int]) == Piece::Q)) || (bishop_line(k, s) && (code_piece(
        p[s as int],
    ) == Piece::B || code_piece(p[s as int]) == Piece::Q)))
}

/// `x` is the only occupied square between `k` and `s`.
pub open spec fn blocks_alone(p: Seq<u8>, k: u8, s: u8, x: u8) -> bool {
    x < 64 && strictly_between(k, s, x) && occupied_at(p, x) && forall|y: u8|
        y < 64 && strictly_between(k, s, y) && y != x ==> !occupied_at(p, y)
}

/// `x` blocks some sniper line onto `c`'s king.
pub open spec fn is_blocker(p: Seq<u8>, c: Player, x: u8) -> bool {
    exists|s: u8| is_sniper(p, c, ksq_of(p, c), s) && blocks_alone(p, ksq_of(p, c), s, x)
}

/// `s` is a sniper whose line onto `c`'s king is blocked by exactly one
/// piece, and that piece belongs to `c`.
pub open spec fn is_pinner(p: Seq<u8>, c: Player, s: u8) -> bool {
    is_sniper(p, c, ksq_of(p, c), s) && exists|x: u8|
        blocks_alone(p, ksq_of(p, c), s, x) && code_is_of(p[x as int], c)
}

/// A piece of kind `pt` standing on `t` would attack `c.flip()`'s king.
pub open spec fn check_square(p: Seq<u8>, turn: Player, pt: Piece, t: u8) -> bool {
    let k = ksq_of(p, turn.flip());
    t < 64 && match pt {
        Piece::P => pawn_att_geom(turn, t, k),
        Piece::N => knight_geom(t, k),
        Piece::B => bishop_line(t, k) && clear_between_p(p, t, k),
        Piece::R => rook_line(t, k) && clear_between_p(p, t, k),
        Piece::Q => (rook_line(t, k) || bishop_line(t, k)) && clear_between_p(p, t, k),
        Piece::K => false,
    }
}

/// What a legal move must look like structurally: the mover belongs to
/// the side to move, the target square is compatible with the move's
/// kind, pawn and castle geometry hold, and no king is ever captured.
pub open spec fn move_ok(p: Seq<u8>, us: Player, m: BitMove, ep: u8) -> bool {
    let from = mv_src(m);
    let to = mv_dst(m);
    placement_wf(p) && from != to && code_is_of(p[from as int], us) && match mv_type(m) {
        MoveType::Normal => (p[to as int] == 0 || (code_is_of(p[to as int], us.flip())
            && code_piece(p[to as int]) != Piece::K)) && (code_piece(p[from as int]) == Piece::P
            ==> pawn_move_geom(p, us, from, to) && relative_rank_of(us, to) != 7),
        MoveType::Promotion => code_piece(p[from as int]) == Piece::P && relative_rank_of(us, to)
            == 7 && (mv_promo(m) == Piece::N || mv_promo(m) == Piece::B || mv_promo(m) == Piece::R
            || mv_promo(m) == Piece::Q) && (p[to as int] == 0 || (code_is_of(p[to as int],
        us.flip()) && code_piece(p[to as int]) != Piece::K)) && ((file_of(to) == file_of(from)
            && p[to as int] == 0 && rank_of(to) == rank_of(from) + pawn_dir_rank(us)) || (
        pawn_att_geom(us, from, to) && code_is_of(p[to as int], us.flip()))),
        MoveType::EnPassant => code_piece(p[from as int]) == Piece::P && ep == to && ep < 64
            && p[to as int] == 0 && pawn_att_geom(us, from, to) && 8 <= ep_cap_sq(us, to) < 56
            && p[ep_cap_sq(us, to) as int] == code_of(us.flip(), Piece::P),
        MoveType::Castle => code_piece(p[from as int]) == Piece::K && from == relative_square_spec(
            us,
            4,
        ) && p[to as int] == code_of(us, Piece::R) && ((to == relative_square_spec(us, 7)
            && p[relative_square_spec(us, 5) as int] == 0 && p[relative_square_spec(us, 6) as int]
            == 0) || (to == relative_square_spec(us, 0) && p[relative_square_spec(us, 1) as int]
            == 0 && p[relative_square_spec(us, 2) as int] == 0 && p[relative_square_spec(
            us,
            3,
        ) as int] == 0)),
    }
}

/// The signed rank step of a pawn move, at spec level.
pub open spec fn pawn_dir_rank(us: Player) -> int {
    match us {
        Player::White => 1,
        Player::Black => -1,
    }
}

/// Geometry of a non-promoting pawn move: a single push onto an empty
/// square, a double push from the home rank over an empty square, or a
/// diagonal capture.
pub open spec fn pawn_move_geom(p: Seq<u8>, us: Player, from: u8, to: u8) -> bool {
    (file_of(to) == file_of(from) && p[to as int] == 0 && rank_of(to) == rank_of(from)
        + pawn_dir_rank(us)) || (file_of(to) == file_of(from) && p[to as int] == 0
        && relative_rank_of(us, from) == 1 && rank_of(to) == rank_of(from) + 2 * pawn_dir_rank(us)
        && p[mid_sq(from, to) as int] == 0) || (pawn_att_geom(us, from, to) && code_is_of(
        p[to as int],
        us.flip(),
    ))
}

/// The square halfway between the two ends of a double push.
pub open spec fn mid_sq(from: u8, to: u8) -> u8 {
    (((from as int) + (to as int)) / 2) as u8
}

/// The king's landing square of a castle encoded as king-onto-rook.
pub open spec fn castle_k_dst(us: Player, to: u8, from: u8) -> u8 {
    if to > from {
        relative_square_spec(us, 6)
    } else {
        relative_square_spec(us, 2)
    }
}

/// The rook's landing square of a castle encoded as king-onto-rook.
pub open spec fn castle_r_dst(us: Player, to: u8, from: u8) -> u8 {
    if to > from {
        relative_square_spec(us, 5)
    } else {
        relative_square_spec(us, 3)
    }
}

/// The placement after `us` plays `m`.
pub open spec fn apply_placement(p: Seq<u8>, us: Player, m: BitMove) -> Seq<u8> {
    let from = mv_src(m);
    let to = mv_dst(m);
    match mv_type(m) {
        MoveType::Normal => p.update(from as int, 0).update(to as int, p[from as int]),
        MoveType::Promotion => p.update(from as int, 0).update(to as int, code_of(us, mv_promo(m))),
        MoveType::EnPassant => p.update(ep_cap_sq(us, to) as int, 0).update(from as int, 0).update(
            to as int,
            code_of(us, Piece::P),
        ),
        MoveType::Castle => p.update(from as int, 0).update(to as int, 0).update(
            castle_k_dst(us, to, from) as int,
            code_of(us, Piece::K),
        ).update(castle_r_dst(us, to, from) as int, code_of(us, Piece::R)),
    }
}

/// The code a move captures: what stood on the target square, or the
/// enemy pawn of an en-passant capture; zero for a castle.
pub open spec fn captured_code(p: Seq<u8>, us: Player, m: BitMove) -> u8 {
    match mv_type(m) {
        MoveType::Normal => p[mv_dst(m) as int],
        MoveType::Promotion => p[mv_dst(m) as int],
        MoveType::EnPassant => code_of(us.flip(), Piece::P),
        MoveType::Castle => 0,
    }
}

/// The en-passant square a move leaves behind: set only by a double
/// pawn push, to the square the pawn stepped over.
pub open spec fn new_ep_of(p: Seq<u8>, us: Player, m: BitMove) -> u8 {
    let from = mv_src(m);
    let to = mv_dst(m);
    if mv_type(m) == MoveType::Normal && code_piece(p[from as int]) == Piece::P && 1 <= p[
        from as int] <= 12 && file_of(to) == file_of(from) && (rank_of(to) == rank_of(from) + 2
        || rank_of(from) == rank_of(to) + 2) {
        mid_sq(from, to)
    } else {
        64
    }
}

/// A packed move's squares and tag are always in range.
pub proof fn lemma_mv_bounds(m: BitMove)
    ensures
        mv_src(m) < 64,
        mv_dst(m) < 64,
        m.data >> 14 < 4,
{
    let d = m.data;
    assert((d >> 6) & 0x3f < 64 && d & 0x3f < 64 && d >> 14 < 4) by (bit_vector);
}

/// Applying a structurally legal move keeps the placement well formed
/// and the kings unique.
pub proof fn lemma_apply_wf(p: Seq<u8>, us: Player, m: BitMove, ep: u8)
    requires
        move_ok(p, us, m, ep),
        kings_ok(p),
    ensures
        placement_wf(apply_placement(p, us, m)),
        kings_ok(apply_placement(p, us, m)),
{
    let from = mv_src(m);
    let to = mv_dst(m);
    let q = apply_placement(p, us, m);
    let wk = code_of(Player::White, Piece::K);
    let bk = code_of(Player::Black, Piece::K);
    lemma_mv_bounds(m);
    assert(p.len() == 64);
    assert(placement_wf(q));
    match mv_type(m) {
        MoveType::Normal => {
            let p1 = p.update(from as int, 0);
            lemma_count_update(p, from as int, 0, wk, 64);
            lemma_count_update(p1, to as int, p[from as int], wk, 64);
            lemma_count_update(p, from as int, 0, bk, 64);
            lemma_count_update(p1, to as int, p[from as int], bk, 64);
        },
        MoveType::Promotion => {
            let p1 = p.update(from as int, 0);
            lemma_count_update(p, from as int, 0, wk, 64);
            lemma_count_update(p1, to as int, code_of(us, mv_promo(m)), wk, 64);
            lemma_count_update(p, from as int, 0, bk, 64);
            lemma_count_update(p1, to as int, code_of(us, mv_promo(m)), bk, 64);
        },
        MoveType::EnPassant => {
            let cs = ep_cap_sq(us, to);
            let p1 = p.update(cs as int, 0);
            let p2 = p1.update(from as int, 0);
            lemma_count_update(p, cs as int, 0, wk, 64);
            lemma_count_update(p1, from as int, 0, wk, 64);
            lemma_count_update(p2, to as int, code_of(us, Piece::P), wk, 64);
            lemma_count_update(p, cs as int, 0, bk, 64);
            lemma_count_update(p1, from as int, 0, bk, 64);
            lemma_count_update(p2, to as int, code_of(us, Piece::P), bk, 64);
        },
        MoveType::Castle => {
            let kd = castle_k_dst(us, to, from);
            let rd = castle_r_dst(us, to, from);
            let p1 = p.update(from as int, 0);
            let p2 = p1.update(to as int, 0);
            let p3 = p2.update(kd as int, code_of(us, Piece::K));
            lemma_count_update(p, from as int, 0, wk, 64);
            lemma_count_update(p1, to as int, 0, wk, 64);
            lemma_count_update(p2, kd as int, code_of(us, Piece::K), wk, 64);
            lemma_count_update(p3, rd as int, code_of(us, Piece::R), wk, 64);
            lemma_count_update(p, from as int, 0, bk, 64);
            lemma_count_update(p1, to as int, 0, bk, 64);
            lemma_count_update(p2, kd as int, code_of(us, Piece::K), bk, 64);
            lemma_count_update(p3, rd as int, code_of(us, Piece::R), bk, 64);
        },
    }
}

} // verus!
