//! Pseudorandom number generation, delegated to the `rand` crate.
//!
//! The generators draw from a deterministic xorshift generator that is
//! constructed locally from an explicit seed and passed along by the caller.
//! Every draw is wrapped here; the contracts state only what holds of every
//! possible outcome (a drawn index lies below its bound), never which value
//! comes out.

use vstd::prelude::*;

use rand::Rng;
use rand::SeedableRng;
use rand::distributions::Distribution;

verus! {

#[verifier::external_type_specification]
#[verifier::external_body]
pub struct ExXorShiftRng(rand::XorShiftRng);

/// Relies on `rand::XorShiftRng::from_seed`: builds the deterministic
/// xorshift generator from a 16-byte seed; it never fails.
#[verifier::external_body]
pub fn rng_from_seed(seed: [u8; 16]) -> rand::XorShiftRng {
    rand::XorShiftRng::from_seed(seed)
}

/// Relies on `rand::Rng::gen::<bool>`: draws one random boolean.
#[verifier::external_body]
pub fn rng_gen_bool(rng: &mut rand::XorShiftRng) -> bool {
    rng.gen()
}

/// Relies on `rand::Rng::gen::<[u8; 16]>`: draws sixteen random bytes, used
/// as the seed of the next deal.
#[verifier::external_body]
pub fn rng_gen_seed(rng: &mut rand::XorShiftRng) -> [u8; 16] {
    rng.gen()
}

/// Relies on `rand::distributions::Uniform` (constructed over `0..n` and
/// sampled once): a uniformly drawn index strictly below `n`.  `Uniform::new`
/// panics when the range is empty, which `requires` rules out.
#[verifier::external_body]
pub fn rng_uniform_index(rng: &mut rand::XorShiftRng, n: usize) -> (r: usize)
    requires
        n > 0,
    ensures
        r < n,
{
    rand::distributions::Uniform::from(0..n).sample(rng)
}

/// Relies on `rand::Rng::gen_range`: a uniformly drawn value in
/// `[low, high)`.  It panics when `low >= high`, which `requires` rules out.
#[verifier::external_body]
pub fn rng_gen_range(rng: &mut rand::XorShiftRng, low: usize, high: usize) -> (r: usize)
    requires
        low < high,
    ensures
        low <= r < high,
{
    rng.gen_range(low, high)
}

} // verus!
