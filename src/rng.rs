//! The pseudo-random source of the machine, from the rand crate.
use vstd::prelude::*;
use rand::rngs::SmallRng;
use rand::{Rng, SeedableRng};

verus! {

/// rand's small, fast, seedable generator; opaque to proofs.
#[verifier::external_type_specification]
#[verifier::external_body]
pub struct ExSmallRng(SmallRng);

/// Relies on rand's `SeedableRng::seed_from_u64` for `SmallRng`: builds a
/// generator from a 64-bit seed. Nothing is stated of the generator.
#[verifier::external_body]
pub(crate) fn seeded_rng(seed: u64) -> SmallRng {
    SmallRng::seed_from_u64(seed)
}

/// Relies on rand's `Rng::gen::<u8>`: draws one byte and advances the
/// generator. Any byte may come out.
#[verifier::external_body]
pub(crate) fn random_byte(rng: &mut SmallRng) -> u8 {
    rng.gen::<u8>()
}

} // verus!
