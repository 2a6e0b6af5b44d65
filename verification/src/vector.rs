use vstd::prelude::*;

verus! {

/// The two-component vector of `bevy_math`, carried through the logic as an
/// opaque value: nothing here reads its coordinates.
#[verifier::external_type_specification]
#[verifier::external_body]
pub struct ExVec2(bevy_math::Vec2);

/// `bevy_math::Vec2::ZERO`. The coordinates are floats, which the library does
/// not model, so nothing is claimed of the result.
#[verifier::external_body]
pub fn zero_vector() -> (v: bevy_math::Vec2) {
    bevy_math::Vec2::ZERO
}

} // verus!
