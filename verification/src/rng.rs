use vstd::prelude::*;

verus! {

// The dice-style random number generator of the `rltk` crate. The generator
// is opaque to verification: nothing is assumed about which numbers come out
// beyond the bounds each drawing method documents.
#[verifier::external_type_specification]
#[verifier::external_body]
pub struct ExRandomNumberGenerator(rltk::RandomNumberGenerator);

/// Relies on rltk::RandomNumberGenerator::roll_dice: the sum of `n` uniform
/// draws over `[1, die_type]`, so the sum lies in `[n, n * die_type]`. Each
/// draw is `range(1, die_type + 1)`, so `die_type` must be at least 1 and
/// leave room for that increment.
#[verifier::external_body]
pub fn roll_dice(rng: &mut rltk::RandomNumberGenerator, n: i32, die_type: i32) -> (r: i32)
    requires
        1 <= n,
        1 <= die_type < i32::MAX,
        n * die_type <= i32::MAX,
    ensures
        n <= r <= n * die_type,
{
    rng.roll_dice(n, die_type)
}

/// Relies on rltk::RandomNumberGenerator::range: a uniform draw that is
/// inclusive of `min` and exclusive of `max`; it panics unless `min < max`.
#[verifier::external_body]
pub fn rng_range(rng: &mut rltk::RandomNumberGenerator, min: i32, max: i32) -> (r: i32)
    requires
        min < max,
    ensures
        min <= r < max,
{
    rng.range(min, max)
}

} // verus!
