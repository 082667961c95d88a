use vstd::prelude::*;

verus! {

/// rand's small fast generator, declared so that values of it can be held
/// and passed through verified code. Verus sees nothing inside it.
#[verifier::external_type_specification]
#[verifier::external_body]
pub struct ExSmallRng(rand::rngs::SmallRng);

/// Relies on rand::RngCore::next_u32 for SmallRng: draws the next word of
/// the generator's stream. Nothing is promised of the value.
#[verifier::external_body]
pub(crate) fn rng_next_u32(rng: &mut rand::rngs::SmallRng) -> u32 {
    rand::RngCore::next_u32(rng)
}

} // verus!
