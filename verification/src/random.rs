//! The source of the random draws that stake-weighted selection makes.

use rand::rngs::StdRng;
use rand::{Rng, SeedableRng};
use vstd::prelude::*;

verus! {

/// The generator type of `rand`, carried through as an opaque value.
#[verifier::external_type_specification]
#[verifier::external_body]
pub struct ExStdRng(StdRng);

/// A source of random numbers: seeded by the caller, so that a run can be
/// repeated, or seeded by the system.
pub struct RandomSource {
    generator: StdRng,
}

/// Trusted: `rand::SeedableRng::seed_from_u64` on `StdRng`. Nothing is
/// claimed of the generator.
#[verifier::external_body]
fn generator_from_seed(seed: u64) -> StdRng {
    StdRng::seed_from_u64(seed)
}

/// Trusted: `rand::SeedableRng::from_entropy` on `StdRng`. Nothing is
/// claimed of the generator. The call aborts where the system cannot
/// supply entropy.
#[verifier::external_body]
fn generator_from_entropy() -> StdRng {
    StdRng::from_entropy()
}

/// Trusted: `rand::Rng::gen_range` on the range from 0 up to, not
/// including, `bound`. The draw lies in that range, and nothing more is
/// claimed of it. The range must not be empty, or the call aborts.
#[verifier::external_body]
fn uniform_below(generator: &mut StdRng, bound: u128) -> (draw: u128)
    requires
        bound > 0,
    ensures
        draw < bound,
{
    generator.gen_range(0..bound)
}

impl RandomSource {
    /// A source that repeats the same draws for the same seed.
    pub fn seeded(seed: u64) -> RandomSource {
        RandomSource { generator: generator_from_seed(seed) }
    }

    /// A source seeded by the system.
    pub fn from_entropy() -> RandomSource {
        RandomSource { generator: generator_from_entropy() }
    }

    /// Draws a number below `bound`, or nothing where `bound` is 0.
    pub fn draw_below(&mut self, bound: u128) -> (draw: Option<u128>)
        ensures
            draw is Some <==> bound > 0,
            draw matches Some(value) ==> value < bound,
    {
        if bound == 0 {
            None
        } else {
            Some(uniform_below(&mut self.generator, bound))
        }
    }
}

} // verus!
