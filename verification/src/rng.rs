//! The single injected randomness stream of the simulation.
//!
//! Every mutating call of the core (`step`, `train`, `random`) draws from one
//! caller-supplied stream, so a run is a deterministic function of the seed
//! and the sequence of calls. The stream is backed by the rand crate.

use vstd::prelude::*;

verus! {

/// The pseudo-random generator of the rand crate that backs [`SimRng`].
#[verifier::external_type_specification]
#[verifier::external_body]
pub struct ExStdRng(rand::rngs::StdRng);

/// A seeded random-number stream, passed by exclusive reference into every
/// call of the core that needs randomness.
pub struct SimRng {
    inner: rand::rngs::StdRng,
}

impl SimRng {
    /// Relies on rand's `SeedableRng::seed_from_u64` to build a
    /// deterministically seeded generator.
    #[verifier::external_body]
    pub fn from_seed(seed: u64) -> SimRng {
        SimRng { inner: rand::SeedableRng::seed_from_u64(seed) }
    }

    /// Relies on rand's `Rng::gen_range(lo..hi)`: a value of the non-empty
    /// half-open range comes back, which is all the contracts here need.
    #[verifier::external_body]
    pub(crate) fn gen_i64(&mut self, lo: i64, hi: i64) -> (r: i64)
        requires
            lo < hi,
        ensures
            lo <= r < hi,
    {
        rand::Rng::gen_range(&mut self.inner, lo..hi)
    }

    /// Relies on rand's `Rng::gen_range(0..n)`: a value below `n` comes back.
    #[verifier::external_body]
    pub(crate) fn gen_u64(&mut self, n: u64) -> (r: u64)
        requires
            n >= 1,
        ensures
            r < n,
    {
        rand::Rng::gen_range(&mut self.inner, 0..n)
    }
}

} // verus!
