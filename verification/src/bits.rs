//! Bit-level foundation: single-bit tests on 64-bit masks, the algebra
//! that connects the bitwise operators to per-bit facts, and population
//! count.  Every mask in the crate is characterised square by square
//! through `bit64`.

use vstd::prelude::*;

verus! {

/// True when bit `i` of `b` is set.
pub open spec fn bit64(b: u64, i: u8) -> bool {
    (b >> (i as u64)) & 1 == 1
}

/// The mask with exactly bit `i` set.
pub open spec fn mask1(i: u8) -> u64 {
    1u64 << (i as u64)
}

proof fn axiom_bit_or(a: u64, b: u64, i: u8)
    by (bit_vector)
    requires
        i < 64,
    ensures
        ((a | b) >> (i as u64)) & 1 == 1 <==> ((a >> (i as u64)) & 1 == 1 || (b >> (i as u64)) & 1 == 1),
{
}

proof fn axiom_bit_and(a: u64, b: u64, i: u8)
    by (bit_vector)
    requires
        i < 64,
    ensures
        ((a & b) >> (i as u64)) & 1 == 1 <==> ((a >> (i as u64)) & 1 == 1 && (b >> (i as u64)) & 1 == 1),
{
}

proof fn axiom_bit_xor(a: u64, b: u64, i: u8)
    by (bit_vector)
    requires
        i < 64,
    ensures
        ((a ^ b) >> (i as u64)) & 1 == 1 <==> (((a >> (i as u64)) & 1 == 1) != ((b >> (i as u64)) & 1 == 1)),
{
}

proof fn axiom_bit_not(a: u64, i: u8)
    by (bit_vector)
    requires
        i < 64,
    ensures
        ((!a) >> (i as u64)) & 1 == 1 <==> !((a >> (i as u64)) & 1 == 1),
{
}

proof fn axiom_bit_single(j: u8, i: u8)
    by (bit_vector)
    requires
        i < 64,
        j < 64,
    ensures
        (((1u64 << (j as u64)) >> (i as u64)) & 1 == 1) <==> i == j,
{
}

proof fn axiom_bit_zero(i: u8)
    by (bit_vector)
    requires
        i < 64,
    ensures
        (0u64 >> (i as u64)) & 1 == 0,
{
}

/// Bit `i` of a union is set exactly when it is set in either operand.
pub broadcast proof fn lemma_bit_or(a: u64, b: u64, i: u8)
    requires
        i < 64,
    ensures
        #[trigger] bit64(a | b, i) <==> (bit64(a, i) || bit64(b, i)),
{
    axiom_bit_or(a, b, i);
}

/// Bit `i` of an intersection is set exactly when it is set in both operands.
pub broadcast proof fn lemma_bit_and(a: u64, b: u64, i: u8)
    requires
        i < 64,
    ensures
        #[trigger] bit64(a & b, i) <==> (bit64(a, i) && bit64(b, i)),
{
    axiom_bit_and(a, b, i);
}

/// Bit `i` of an exclusive or is set exactly when the operands differ there.
pub broadcast proof fn lemma_bit_xor(a: u64, b: u64, i: u8)
    requires
        i < 64,
    ensures
        #[trigger] bit64(a ^ b, i) <==> (bit64(a, i) != bit64(b, i)),
{
    axiom_bit_xor(a, b, i);
}

/// Bit `i` of a complement is set exactly when it is clear in the operand.
pub broadcast proof fn lemma_bit_not(a: u64, i: u8)
    requires
        i < 64,
    ensures
        #[trigger] bit64(!a, i) <==> !bit64(a, i),
{
    axiom_bit_not(a, i);
}

/// A one-bit mask holds exactly its own index.
pub broadcast proof fn lemma_bit_single(j: u8, i: u8)
    requires
        i < 64,
        j < 64,
    ensures
        #[trigger] bit64(mask1(j), i) <==> i == j,
{
    axiom_bit_single(j, i);
}

/// The empty mask holds no square.
pub broadcast proof fn lemma_bit_empty(i: u8)
    requires
        i < 64,
    ensures
        !(#[trigger] bit64(0u64, i)),
{
    axiom_bit_zero(i);
}

/// Number of set bits among the low `n` bit positions.
pub open spec fn count_bits_upto(b: u64, n: int) -> int
    decreases n,
{
    if n <= 0 {
        0
    } else {
        count_bits_upto(b, n - 1) + if bit64(b, (n - 1) as u8) {
            1int
        } else {
            0int
        }
    }
}

/// Total number of set bits in `b`.
pub open spec fn count_bits(b: u64) -> int {
    count_bits_upto(b, 64)
}

proof fn lemma_count_bits_upto_bound(b: u64, n: int)
    requires
        0 <= n <= 64,
    ensures
        0 <= count_bits_upto(b, n) <= n,
    decreases n,
{
    if n > 0 {
        lemma_count_bits_upto_bound(b, n - 1);
    }
}

/// The population count never exceeds the word width.
pub proof fn lemma_count_bits_bound(b: u64)
    ensures
        0 <= count_bits(b) <= 64,
{
    lemma_count_bits_upto_bound(b, 64);
}

proof fn lemma_count_bits_upto_mono(b: u64, n: int)
    ensures
        count_bits_upto(b, n) >= count_bits_upto(b, n - 1),
    decreases n,
{
}

/// A set bit bounds the count from below.
pub proof fn lemma_bits_one(b: u64, x: u8, n: int)
    requires
        x < n <= 64,
        bit64(b, x),
    ensures
        count_bits_upto(b, n) >= 1,
    decreases n,
{
    lemma_count_bits_upto_bound(b, x as int);
    if n == x + 1 {
    } else {
        lemma_bits_one(b, x, n - 1);
    }
}

/// Two distinct set bits push the count to two.
pub proof fn lemma_bits_two(b: u64, x: u8, y: u8)
    requires
        x < 64,
        y < 64,
        x != y,
        bit64(b, x),
        bit64(b, y),
    ensures
        count_bits(b) >= 2,
{
    let lo = if x < y {
        x
    } else {
        y
    };
    let hi = if x < y {
        y
    } else {
        x
    };
    lemma_bits_one(b, lo, hi as int);
    lemma_bits_two_step(b, hi, 64);
}

proof fn lemma_bits_two_step(b: u64, hi: u8, n: int)
    requires
        hi < n <= 64,
        bit64(b, hi),
        count_bits_upto(b, hi as int) >= 1,
    ensures
        count_bits_upto(b, n) >= 2,
    decreases n,
{
    if n == hi + 1 {
    } else {
        lemma_bits_two_step(b, hi, n - 1);
    }
}

/// A mask with no set bit counts zero.
pub proof fn lemma_bits_zero(b: u64, n: int)
    requires
        n <= 64,
        forall|y: u8| y < 64 ==> !bit64(b, y),
    ensures
        count_bits_upto(b, n) == 0,
    decreases n,
{
    if n > 0 {
        lemma_bits_zero(b, n - 1);
        assert(!bit64(b, (n - 1) as u8));
    }
}

/// A mask clear everywhere but one place counts at most one.
pub proof fn lemma_bits_le_one(b: u64, x: u8, n: int)
    requires
        n <= 64,
        forall|y: u8| y < 64 && y != x ==> !bit64(b, y),
    ensures
        count_bits_upto(b, n) <= 1,
    decreases n,
{
    if n > 0 {
        lemma_bits_le_one(b, x, n - 1);
        if n - 1 != x as int && n - 1 < 64 {
            assert(!bit64(b, (n - 1) as u8));
        }
        if count_bits_upto(b, n) > 1 {
            assert(bit64(b, (n - 1) as u8) && n - 1 == x as int && count_bits_upto(b, n - 1) >= 1);
            lemma_bits_none_below(b, x, x as int);
        }
    }
}

proof fn lemma_bits_none_below(b: u64, x: u8, n: int)
    requires
        x < 64,
        n <= x,
        forall|y: u8| y < 64 && y != x ==> !bit64(b, y),
    ensures
        count_bits_upto(b, n) == 0,
    decreases n,
{
    if n > 0 {
        lemma_bits_none_below(b, x, n - 1);
        assert(!bit64(b, (n - 1) as u8));
    }
}

/// Counts the set bits of `b`.
pub fn popcount(b: u64) -> (r: u8)
    ensures
        r as int == count_bits(b),
{
    let mut i: u64 = 0;
    let mut c: u8 = 0;
    proof {
        lemma_count_bits_upto_bound(b, 64);
    }
    while i < 64
        invariant
            i <= 64,
            c as int == count_bits_upto(b, i as int),
            c <= i,
        decreases 64 - i,
    {
        if (b >> (i as u64)) & 1 == 1 {
            c = c + 1;
        }
        i = i + 1;
    }
    c
}

/// Returns the lowest set bit's index, or 64 when the mask is empty.
pub fn lsb_index(b: u64) -> (r: u8)
    ensures
        r <= 64,
        r < 64 ==> bit64(b, r) && forall|j: u8| j < r ==> !bit64(b, j),
        r == 64 ==> forall|j: u8| j < 64 ==> !bit64(b, j),
{
    let mut i: u8 = 0;
    while i < 64
        invariant
            i <= 64,
            forall|j: u8| j < i ==> !bit64(b, j),
        decreases 64 - i,
    {
        if (b >> (i as u64)) & 1 == 1 {
            return i;
        }
        i = i + 1;
    }
    64
}

} // verus!
