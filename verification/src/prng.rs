//! A pseudo-random number generator in the xorshift family, with a
//! contract that pins every draw to its formula.

use vstd::prelude::*;

verus! {

/// A pseudo-random number generator over a 64-bit state, in the
/// xorshift family.  The state is never zero.
pub struct PRNG {
    seed: u64,
}

/// One xorshift step of the generator state.
pub open spec fn prng_step(s: u64) -> u64 {
    let a = (s ^ (s >> 12)) as u64;
    let b = (a ^ (a << 25)) as u64;
    (b ^ (b >> 27)) as u64
}

/// The value handed out for a given state: the stepped state scaled
/// by a fixed odd constant, truncated to 64 bits.
pub open spec fn prng_out(s: u64) -> u64 {
    (((prng_step(s) as int) * 2685821657736338717) % 0x1_0000_0000_0000_0000) as u64
}

impl PRNG {
    /// The generator state, for contracts.
    pub closed spec fn seed_spec(&self) -> u64 {
        self.seed
    }

    /// Creates a generator from a non-zero seed.
    pub fn init(s: u64) -> (r: PRNG)
        requires
            s != 0,
        ensures
            r.seed_spec() == s,
    {
        PRNG { seed: s }
    }

    /// Returns a pseudo-random number and advances the state.
    pub fn rand(&mut self) -> (r: u64)
        ensures
            final(self).seed_spec() == prng_step(old(self).seed_spec()),
            r == prng_out(old(self).seed_spec()),
    {
        self.rand_change()
    }

    /// Returns a pseudo-random number with, on average, few bits set:
    /// the conjunction of three successive draws.
    pub fn sparse_rand(&mut self) -> (r: u64)
        ensures
            final(self).seed_spec() == prng_step(prng_step(prng_step(old(self).seed_spec()))),
            r == (prng_out(old(self).seed_spec()) & prng_out(prng_step(old(self).seed_spec()))
                & prng_out(prng_step(prng_step(old(self).seed_spec())))),
    {
        let mut s = self.rand_change();
        s = s & self.rand_change();
        s = s & self.rand_change();
        s
    }

    /// Returns a word with exactly one set bit, at a position drawn
    /// from the generator: the population count of one draw, reduced
    /// below the word width.
    pub fn singular_bit(&mut self) -> (r: u64)
        ensures
            final(self).seed_spec() == prng_step(old(self).seed_spec()),
            r == crate::bits::mask1(
                (crate::bits::count_bits(prng_out(old(self).seed_spec())) % 64) as u8,
            ),
            crate::bits::count_bits(r) == 1,
    {
        let n = self.rand();
        let c = crate::bits::popcount(n);
        proof {
            crate::bits::lemma_count_bits_bound(n);
        }
        let sh = c % 64;
        let r: u64 = 1u64 << (sh as u64);
        proof {
            crate::bits::lemma_bit_single(sh, sh);
            crate::bits::lemma_bits_one(r, sh, 64);
            assert forall|y: u8| y < 64 && y != sh implies !crate::bits::bit64(r, y) by {
                crate::bits::lemma_bit_single(sh, y);
            }
            crate::bits::lemma_bits_le_one(r, sh, 64);
        }
        r
    }

    fn rand_change(&mut self) -> (r: u64)
        ensures
            final(self).seed_spec() == prng_step(old(self).seed_spec()),
            r == prng_out(old(self).seed_spec()),
    {
        self.seed = self.seed ^ (self.seed >> 12u64);
        self.seed = self.seed ^ (self.seed << 25u64);
        self.seed = self.seed ^ (self.seed >> 27u64);
        self.seed.wrapping_mul(2685821657736338717u64)
    }
}

} // verus!
