//! The random source for a generation run: a seedable generator from the
//! `rand` crate, reached through a small set of trusted wrappers.

use vstd::prelude::*;
use crate::config::CHANCE_SCALE;
use crate::tile::TileType;

verus! {

#[verifier::external_type_specification]
#[verifier::external_body]
pub struct ExStdRng(rand::rngs::StdRng);

/// A pseudo-random source local to one generation run. It is seeded
/// explicitly, so a fixed seed reproduces a run for testing; normal callers
/// pass a fresh arbitrary seed.
pub struct WorldRng {
    rng: rand::rngs::StdRng,
}

/// Relies on `rand::rngs::StdRng::seed_from_u64` (`rand_core::SeedableRng`):
/// builds a generator deterministically from the seed; never fails.
#[verifier::external_body]
fn seeded_std_rng(seed: u64) -> rand::rngs::StdRng {
    rand::SeedableRng::seed_from_u64(seed)
}

/// Relies on `rand::Rng::gen_range` on `0..bound`: returns a uniform draw
/// below `bound`, and panics only when the range is empty.
#[verifier::external_body]
fn std_rng_below(rng: &mut rand::rngs::StdRng, bound: u32) -> (r: u32)
    requires
        bound >= 1,
    ensures
        r < bound,
{
    rand::Rng::gen_range(rng, 0..bound)
}

/// Relies on `rand::seq::SliceRandom::shuffle`: a Fisher-Yates pass that
/// permutes the slice in place, keeping exactly the same elements.
#[verifier::external_body]
fn std_rng_shuffle(rng: &mut rand::rngs::StdRng, v: &mut Vec<TileType>)
    ensures
        final(v)@.to_multiset() == old(v)@.to_multiset(),
        final(v)@.len() == old(v)@.len(),
{
    rand::seq::SliceRandom::shuffle(v.as_mut_slice(), rng)
}

/// Relies on `rand::seq::SliceRandom::choose`: returns the element at a
/// uniformly drawn index, and `None` exactly when the slice is empty.
#[verifier::external_body]
fn std_rng_choose(rng: &mut rand::rngs::StdRng, v: &Vec<TileType>) -> (r: Option<TileType>)
    ensures
        r is Some <==> v@.len() > 0,
        r matches Some(t) ==> v@.contains(t),
{
    rand::seq::SliceRandom::choose(v.as_slice(), rng).copied()
}

impl WorldRng {
    /// A generator whose whole draw sequence is determined by `seed`.
    pub fn from_seed(seed: u64) -> WorldRng {
        WorldRng { rng: seeded_std_rng(seed) }
    }

    /// A uniform draw below `bound`.
    pub(crate) fn next_below(&mut self, bound: u32) -> (r: u32)
        requires
            bound >= 1,
        ensures
            r < bound,
    {
        std_rng_below(&mut self.rng, bound)
    }

    /// One Bernoulli draw: true with chance `chance_ppm` parts per million
    /// (always false at 0, always true at `CHANCE_SCALE` and above).
    pub(crate) fn roll(&mut self, chance_ppm: u32) -> (r: bool)
        ensures
            chance_ppm == 0 ==> !r,
            chance_ppm >= CHANCE_SCALE ==> r,
    {
        self.next_below(CHANCE_SCALE) < chance_ppm
    }

    /// Permutes `v` in place.
    pub(crate) fn shuffle_types(&mut self, v: &mut Vec<TileType>)
        ensures
            final(v)@.to_multiset() == old(v)@.to_multiset(),
            final(v)@.len() == old(v)@.len(),
    {
        std_rng_shuffle(&mut self.rng, v)
    }

    /// Picks a uniformly random element, `None` exactly when `v` is empty.
    pub(crate) fn choose_type(&mut self, v: &Vec<TileType>) -> (r: Option<TileType>)
        ensures
            r is Some <==> v@.len() > 0,
            r matches Some(t) ==> v@.contains(t),
    {
        std_rng_choose(&mut self.rng, v)
    }
}

} // verus!
