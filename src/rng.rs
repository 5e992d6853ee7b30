//! The random source of the serve.
use vstd::prelude::*;
use bevy_turborand::DelegatedRng;
use bevy_turborand::GlobalRng;

verus! {

/// bevy_turborand's global generator, carried through without looking inside.
#[verifier::external_type_specification]
#[verifier::external_body]
pub struct ExGlobalRng(GlobalRng);

/// Relies on bevy_turborand's `DelegatedRng::bool` for `GlobalRng`: it draws one
/// random boolean and advances the generator. Nothing is known of the outcome.
#[verifier::external_body]
pub(crate) fn coin_flip(rng: &mut GlobalRng) -> (r: bool) {
    rng.bool()
}

} // verus!
