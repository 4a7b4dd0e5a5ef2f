use vstd::prelude::*;
use rltk::RandomNumberGenerator;

verus! {

/// rltk's random number generator, carried through the generation logic.
#[verifier::external_type_specification]
#[verifier::external_body]
pub struct ExRandomNumberGenerator(RandomNumberGenerator);

/// Relies on rltk's `RandomNumberGenerator::roll_dice`: one die with `sides`
/// faces (drawn with `range(1, sides + 1)`) gives a value in `1..=sides`.
#[verifier::external_body]
pub(crate) fn roll_die(rng: &mut RandomNumberGenerator, sides: i32) -> (r: i32)
    requires
        1 <= sides < i32::MAX,
    ensures
        1 <= r <= sides,
{
    rng.roll_dice(1, sides)
}

/// Relies on rltk's `RandomNumberGenerator::range`: a value in `min..max`,
/// the first bound included and the second excluded.
#[verifier::external_body]
pub(crate) fn range(rng: &mut RandomNumberGenerator, min: i32, max: i32) -> (r: i32)
    requires
        min < max,
    ensures
        min <= r < max,
{
    rng.range(min, max)
}

} // verus!
