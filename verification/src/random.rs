//! The game's random number generator: a seeded `ChaCha8Rng` from `rand_chacha`,
//! sampled through `rand`.
use vstd::prelude::*;
use rand::Rng;
use rand::SeedableRng;
use rand_chacha::ChaCha8Rng;
use crate::world::G;

verus! {

#[verifier::external_type_specification]
#[verifier::external_body]
pub struct ExChaCha8Rng(rand_chacha::ChaCha8Rng);

/// `SeedableRng::seed_from_u64` for `ChaCha8Rng`: a generator seeded with `seed`.
/// Nothing is stated of its state.
#[verifier::external_body]
pub(crate) fn seeded_rng(seed: u64) -> ChaCha8Rng {
    ChaCha8Rng::seed_from_u64(seed)
}

/// `Rng::gen_range(0..n)`: a number below `n` (`gen_range` panics on an empty range,
/// hence `n > 0`). Which number comes out depends on the generator's state.
#[verifier::external_body]
pub(crate) fn random_below(rng: &mut ChaCha8Rng, n: usize) -> (r: usize)
    requires
        n > 0,
    ensures
        r < n,
{
    rng.gen_range(0..n)
}

impl G {
    /// A number in `lo..hi`, drawn by the game's generator.
    pub fn random_range(&mut self, lo: i32, hi: i32) -> (r: i32)
        requires
            lo < hi,
        ensures
            lo <= r < hi,
            *final(self) == (G { rng: final(self).rng, ..*old(self) }),
    {
        let span = (hi as i64 - lo as i64) as usize;
        let k = random_below(&mut self.rng, span);
        (lo as i64 + k as i64) as i32
    }

    /// A number in `lo..=hi`, drawn by the game's generator.
    pub fn random_range_incl(&mut self, lo: i32, hi: i32) -> (r: i32)
        requires
            lo <= hi,
        ensures
            lo <= r <= hi,
            *final(self) == (G { rng: final(self).rng, ..*old(self) }),
    {
        if hi < i32::MAX {
            self.random_range(lo, hi + 1)
        } else if lo > i32::MIN {
            self.random_range(lo - 1, hi) + 1
        } else {
            // The whole range of `i32`: two independent halves of 16 bits each.
            let high = random_below(&mut self.rng, 0x1_0000);
            let low = random_below(&mut self.rng, 0x1_0000);
            (high as i64 * 0x1_0000 + low as i64 - 0x8000_0000) as i32
        }
    }

    /// A vector whose two coordinates are each drawn from `lo..hi`.
    pub fn random_vec(&mut self, lo: i32, hi: i32) -> (r: (i32, i32))
        requires
            lo < hi,
        ensures
            lo <= r.0 < hi,
            lo <= r.1 < hi,
            *final(self) == (G { rng: final(self).rng, ..*old(self) }),
    {
        let x = self.random_range(lo, hi);
        let y = self.random_range(lo, hi);
        (x, y)
    }

    /// A vector whose two coordinates are each drawn from `lo..=hi`.
    pub fn random_vec_incl(&mut self, lo: i32, hi: i32) -> (r: (i32, i32))
        requires
            lo <= hi,
        ensures
            lo <= r.0 <= hi,
            lo <= r.1 <= hi,
            *final(self) == (G { rng: final(self).rng, ..*old(self) }),
    {
        let x = self.random_range_incl(lo, hi);
        let y = self.random_range_incl(lo, hi);
        (x, y)
    }

    /// One of `options`, picked by the game's generator.
    pub fn pick_random<T: Copy>(&mut self, options: &[T]) -> (r: T)
        requires
            options@.len() > 0,
        ensures
            exists|i: int| 0 <= i < options@.len() && r == options@[i],
            *final(self) == (G { rng: final(self).rng, ..*old(self) }),
    {
        let i = random_below(&mut self.rng, options.len());
        options[i]
    }
}

} // verus!
