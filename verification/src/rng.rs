//! A seedable source of pseudo-random numbers, injected into every operation
//! that draws randomness so that runs are reproducible.

use vstd::prelude::*;

verus! {

#[verifier::external_type_specification]
#[verifier::external_body]
pub struct ExStdRng(rand::rngs::StdRng);

/// A seedable pseudo-random source. All randomness used by initialization,
/// selection, crossover and mutation is drawn from a value of this type, so a
/// run is reproducible from its seed.
pub struct RandomSource {
    rng: rand::rngs::StdRng,
}

impl RandomSource {
    /// Relies on rand's `SeedableRng::seed_from_u64` to build a generator
    /// whose stream is a function of the seed alone.
    #[verifier::external_body]
    pub fn from_seed(seed: u64) -> RandomSource {
        RandomSource { rng: <rand::rngs::StdRng as rand::SeedableRng>::seed_from_u64(seed) }
    }

    /// Relies on rand's `RngExt::random_range` over `0..bound`: the result is
    /// uniformly distributed in that range, and the call panics only when the
    /// range is empty.
    #[verifier::external_body]
    pub fn next_below(&mut self, bound: usize) -> (r: usize)
        requires
            bound >= 1,
        ensures
            r < bound,
    {
        rand::RngExt::random_range(&mut self.rng, 0..bound)
    }
}

} // verus!
