//! The injected uniform random source: bracket_random's xorshift generator,
//! taken on trust behind a single range-drawing wrapper.

use vstd::prelude::*;

verus! {

/// bracket_random's `RandomNumberGenerator`, opaque to the verifier. The
/// simulation threads one through spawning and placement; callers construct it
/// (fresh or seeded) themselves.
#[verifier::external_type_specification]
#[verifier::external_body]
pub struct ExRandomNumberGenerator(bracket_random::prelude::RandomNumberGenerator);

/// Relies on bracket_random's `RandomNumberGenerator::range`: a draw is
/// inclusive of `min` and exclusive of `max` (it panics on an empty range,
/// which `min < max` rules out). Nothing more is assumed of the value.
#[verifier::external_body]
pub(crate) fn rng_range(
    rng: &mut bracket_random::prelude::RandomNumberGenerator,
    min: i32,
    max: i32,
) -> (r: i32)
    requires
        min < max,
    ensures
        min <= r < max,
{
    rng.range(min, max)
}

} // verus!
