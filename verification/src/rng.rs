//! The source of randomness for map generation.
//!
//! Nothing is assumed of the drawn values beyond the documented range of
//! `gen_range`, so everything proved about generation holds for every
//! outcome.

use vstd::prelude::*;

use rand::Rng;

verus! {

#[verifier::external_type_specification]
#[verifier::external_body]
pub struct ExThreadRng(rand::rngs::ThreadRng);

/// A handle on the thread-local random number generator.
pub struct RandomSource {
    rng: rand::rngs::ThreadRng,
}

impl RandomSource {
    /// Relies on rand::thread_rng: it hands out the lazily initialized
    /// thread-local generator.
    #[verifier::external_body]
    fn fresh_rng() -> rand::rngs::ThreadRng {
        rand::thread_rng()
    }

    pub fn new() -> RandomSource {
        RandomSource { rng: Self::fresh_rng() }
    }

    /// Relies on rand::Rng::gen_range over `0..bound`: the sample lies in
    /// the half-open range, and only an empty range panics, which the
    /// precondition rules out.
    #[verifier::external_body]
    pub fn below(&mut self, bound: u32) -> (r: u32)
        requires
            bound >= 1,
        ensures
            r < bound,
    {
        self.rng.gen_range(0..bound)
    }

    /// Relies on rand::Rng::gen for bool. Nothing can be promised of the
    /// outcome.
    #[verifier::external_body]
    pub fn coin(&mut self) -> bool {
        self.rng.gen()
    }

    /// Relies on rand::Rng::gen for u8. Nothing can be promised of the
    /// outcome.
    #[verifier::external_body]
    pub fn byte(&mut self) -> u8 {
        self.rng.gen()
    }
}

} // verus!
