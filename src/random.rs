use vstd::prelude::*;

verus! {

#[verifier::external_type_specification]
#[verifier::external_body]
pub struct ExRandomNumberGenerator(rltk::RandomNumberGenerator);

/// Relies on rltk's `RandomNumberGenerator::new`: a generator seeded from the
/// operating system's entropy source.
#[verifier::external_body]
pub(crate) fn new_rng() -> (r: rltk::RandomNumberGenerator) {
    rltk::RandomNumberGenerator::new()
}

/// Relies on rltk's `RandomNumberGenerator::range`: a value drawn from the
/// half-open range `[min, max)`; the underlying `gen_range` panics when that
/// range is empty.
#[verifier::external_body]
pub(crate) fn rng_range(rng: &mut rltk::RandomNumberGenerator, min: i32, max: i32) -> (r: i32)
    requires
        min < max,
    ensures
        min <= r < max,
{
    rng.range(min, max)
}

/// Relies on rltk's `RandomNumberGenerator::roll_dice`: the sum of `n` draws,
/// each from `[1, die_type + 1)`.
#[verifier::external_body]
pub(crate) fn rng_roll_dice(rng: &mut rltk::RandomNumberGenerator, n: i32, die_type: i32) -> (r: i32)
    requires
        0 <= n,
        1 <= die_type < i32::MAX,
        n * die_type <= i32::MAX,
    ensures
        n <= r <= n * die_type,
{
    rng.roll_dice(n, die_type)
}

} // verus!
