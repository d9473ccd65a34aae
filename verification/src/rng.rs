//! The processor's random source: a small pseudo-random generator owned by
//! the processor, seeded once from a non-deterministic source at
//! construction. The engine asks it for one byte at a time; nothing is
//! assumed of the bytes it produces, so every caller is verified for every
//! value that may come back.

use rand::rngs::SmallRng;
use rand::Rng;
use rand::SeedableRng;
use vstd::prelude::*;

verus! {

#[verifier::external_type_specification]
#[verifier::external_body]
pub struct ExSmallRng(SmallRng);

/// A capability producing one 8-bit value on demand. It is opaque to every
/// contract: the cycle that consumes a byte states what holds whatever byte
/// came back.
pub struct RandomSource {
    rng: SmallRng,
}

impl RandomSource {
    /// Relies on rand's `SmallRng::from_entropy` to seed a fresh generator
    /// from the operating system's entropy source. It takes no input and
    /// panics only if that source fails.
    #[verifier::external_body]
    pub fn from_entropy() -> RandomSource {
        RandomSource { rng: SmallRng::from_entropy() }
    }

    /// Relies on rand's `Rng::gen` to draw one uniformly distributed byte.
    /// Nothing can be promised of a random value, so this has no contract:
    /// two calls on one source may differ, and callers hold for every byte.
    #[verifier::external_body]
    pub fn next_byte(&mut self) -> u8 {
        self.rng.gen::<u8>()
    }
}

} // verus!
