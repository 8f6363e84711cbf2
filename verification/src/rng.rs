//! The worker pseudo-random generators, modelled as a deterministic word
//! stream. A standard generator seeded from a 64-bit value is a pure
//! function of that seed, so the words it hands out can be named by seed
//! and position; the search contracts and the reproducibility law are
//! stated over that stream.

use vstd::prelude::*;

verus! {

/// Declaration of rand's `StdRng` so that a generator can live in a
/// field; the value is opaque here.
#[verifier::external_type_specification]
#[verifier::external_body]
pub struct ExStdRng(rand::rngs::StdRng);

/// The word at position `index` of the stream drawn from a standard
/// generator seeded from `seed`. Left uninterpreted; for the generator
/// used here the stream is a deterministic function of the seed on every
/// machine.
pub uninterp spec fn std_rng_word(seed: u64, index: nat) -> u64;

/// A worker's generator, together with its seed and the number of words
/// already drawn. The inner generator is always the one seeded from
/// `seed` and advanced `drawn` times; only the two functions below touch
/// it, and they keep that coupling.
pub struct WorkerRng {
    rng: rand::rngs::StdRng,
    seed: u64,
    drawn: Ghost<nat>,
}

/// Relies on rand's `SeedableRng::seed_from_u64` for `StdRng`: it builds
/// the generator deterministically from the seed. Nothing further is
/// claimed here; the stream contract lives on [`WorkerRng::next_u64`].
#[verifier::external_body]
fn std_rng_from_seed(seed: u64) -> rand::rngs::StdRng {
    <rand::rngs::StdRng as rand::SeedableRng>::seed_from_u64(seed)
}

impl WorkerRng {
    /// The seed this generator was built from.
    pub closed spec fn seed(&self) -> u64 {
        self.seed
    }

    /// How many words have been drawn so far.
    pub closed spec fn drawn(&self) -> nat {
        self.drawn@
    }

    /// A fresh generator seeded from `seed`, with nothing drawn yet.
    pub(crate) fn new(seed: u64) -> (r: WorkerRng)
        ensures
            r.seed() == seed,
            r.drawn() == 0,
    {
        WorkerRng { rng: std_rng_from_seed(seed), seed, drawn: Ghost(0 as nat) }
    }

    /// Relies on rand's `RngCore::next_u64` for `StdRng`: the generator
    /// is deterministic, so the word drawn is a function of the seed and
    /// of the position in the stream alone.
    #[verifier::external_body]
    pub(crate) fn next_u64(&mut self) -> (r: u64)
        ensures
            final(self).seed() == old(self).seed(),
            final(self).drawn() == old(self).drawn() + 1,
            r == std_rng_word(old(self).seed(), old(self).drawn()),
    {
        rand::RngCore::next_u64(&mut self.rng)
    }
}

} // verus!
