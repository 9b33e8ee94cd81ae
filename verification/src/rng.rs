//! The random generator behind each partition's preparation times.
//!
//! The generator type and the two calls into the `rand` crate are the
//! trusted boundary: everything stated here is what `rand`'s own source
//! shows, and nothing more.

use vstd::prelude::*;

use rand::Rng;
use rand::SeedableRng;

verus! {

/// Lower bound (inclusive) of a freshly drawn preparation time.
pub const PREPARE_TIME_MIN: u32 = 5;

/// Upper bound (exclusive) of a freshly drawn preparation time.
pub const PREPARE_TIME_MAX: u32 = 15;

#[verifier::external_type_specification]
#[verifier::external_body]
pub struct ExStdRng(rand::rngs::StdRng);

/// Relies on rand's `SeedableRng::from_entropy`: a fresh generator seeded
/// from the operating system. Nothing is promised of it; every value drawn
/// later is constrained only by `draw_prepare_time`'s own contract.
#[verifier::external_body]
pub(crate) fn fresh_rng() -> rand::rngs::StdRng {
    rand::rngs::StdRng::from_entropy()
}

/// Relies on rand's `Rng::gen_range`: a sample from a non-empty
/// inclusive-exclusive range lies in that range.
#[verifier::external_body]
pub(crate) fn draw_prepare_time(rng: &mut rand::rngs::StdRng) -> (t: u32)
    ensures
        PREPARE_TIME_MIN <= t < PREPARE_TIME_MAX,
{
    rng.gen_range(PREPARE_TIME_MIN..PREPARE_TIME_MAX)
}

} // verus!
