//! The one source of randomness in the simulation: an explicitly owned,
//! explicitly passed generator handle, so that a fixed seed yields a
//! reproducible run.
use vstd::prelude::*;

verus! {

/// `rand::rngs::StdRng`, held opaquely: verified code carries the generator
/// through but never looks inside it.
#[verifier::external_type_specification]
#[verifier::external_body]
pub struct ExStdRng(rand::rngs::StdRng);

/// Relies on `rand::SeedableRng::seed_from_u64` for `StdRng`: builds a
/// deterministic generator from the seed.
#[verifier::external_body]
pub fn seed_rng(seed: u64) -> rand::rngs::StdRng {
    <rand::rngs::StdRng as rand::SeedableRng>::seed_from_u64(seed)
}

/// Relies on `rand::RngExt::random_range` over `0..n`: returns a uniformly
/// drawn value of the range, and panics only when the range is empty, which
/// `1 <= n` rules out. Nothing more can be promised of a random draw.
#[verifier::external_body]
pub fn rand_below(rng: &mut rand::rngs::StdRng, n: u64) -> (r: u64)
    requires
        1 <= n,
    ensures
        r < n,
{
    rand::RngExt::random_range(rng, 0..n)
}

} // verus!
