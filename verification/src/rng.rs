use vstd::prelude::*;
use rand::Rng;
use rand::RngCore;
use rand::SeedableRng;
use rand::rngs::SmallRng;

verus! {

/// Declares rand's `SmallRng` so it can sit in fields and signatures; its
/// state is opaque to the proofs, which rely only on the wrappers below.
#[verifier::external_type_specification]
#[verifier::external_body]
pub struct ExSmallRng(SmallRng);

/// Relies on rand's `SmallRng::from_seed` (via `SeedableRng`): constructs the
/// generator from the 32-byte seed. Nothing is assumed of the values it will
/// later produce.
#[verifier::external_body]
pub(crate) fn rng_from_seed(seed: [u8; 32]) -> SmallRng {
    SmallRng::from_seed(seed)
}

/// Relies on rand's `Rng::gen_range` on `Range<u32>`: the result lies in
/// `[lo, hi)`. `gen_range` panics on an empty range, which the precondition
/// rules out; nothing more is assumed of which value comes back.
#[verifier::external_body]
pub(crate) fn rng_range_u32(rng: &mut SmallRng, lo: u32, hi: u32) -> (r: u32)
    requires
        lo < hi,
    ensures
        lo <= r < hi,
{
    rng.gen_range(lo..hi)
}

/// Relies on rand's `Rng::gen_range` on `RangeInclusive<u32>`: the result
/// lies in `[lo, hi]`. `gen_range` panics on an empty range, which the
/// precondition rules out; nothing more is assumed of which value comes back.
#[verifier::external_body]
pub(crate) fn rng_range_incl_u32(rng: &mut SmallRng, lo: u32, hi: u32) -> (r: u32)
    requires
        lo <= hi,
    ensures
        lo <= r <= hi,
{
    rng.gen_range(lo..=hi)
}

/// Relies on rand's `RngCore::next_u32`: any 32-bit value may come back.
#[verifier::external_body]
pub(crate) fn rng_next_u32(rng: &mut SmallRng) -> u32 {
    rng.next_u32()
}

} // verus!
