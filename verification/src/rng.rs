//! The seeded random source used for apple placement, held behind trusted
//! declarations.  Nothing is assumed about which value comes back beyond the
//! requested range.

use vstd::prelude::*;

verus! {

#[verifier::external_type_specification]
#[verifier::external_body]
pub struct ExSmallRng(rand::rngs::SmallRng);

/// Relies on rand's `SeedableRng::seed_from_u64`: builds a small, fast
/// generator deterministically from the seed; it never panics.
#[verifier::external_body]
pub(crate) fn rng_from_seed(seed: u64) -> rand::rngs::SmallRng {
    <rand::rngs::SmallRng as rand::SeedableRng>::seed_from_u64(seed)
}

/// Relies on rand's `Rng::gen_range`: returns a value drawn uniformly from the
/// inclusive range, and panics only when the range is empty, which the
/// precondition rules out.  Nothing is assumed beyond the bounds: two calls on
/// equal inputs may differ.
#[verifier::external_body]
pub(crate) fn rng_range(rng: &mut rand::rngs::SmallRng, lo: i64, hi: i64) -> (r: i64)
    requires
        lo <= hi,
    ensures
        lo <= r <= hi,
{
    rand::Rng::gen_range(rng, lo..=hi)
}

} // verus!
