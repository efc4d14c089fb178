//! The pseudo-random generator behind world layout and spawns.
//!
//! The generator is xoshiro256++ as `rand_xoshiro` implements it, sampled
//! through `rand`. Its output is a function of the seed and of the draws
//! made so far; the items below give that function a name without
//! unfolding it.

use vstd::prelude::*;
use rand::Rng;
use rand_xoshiro::rand_core::SeedableRng;
use rand_xoshiro::Xoshiro256PlusPlus;

verus! {

#[verifier::external_type_specification]
#[verifier::external_body]
pub struct ExXoshiro256PlusPlus(Xoshiro256PlusPlus);

/// The four state words that a generator holds.
pub uninterp spec fn generator_state(rng: Xoshiro256PlusPlus) -> Seq<u64>;

/// The state words of a generator freshly seeded with `seed`.
pub uninterp spec fn seeded_state(seed: u64) -> Seq<u64>;

/// What a draw from `low..high` gives in state `state`: the value drawn and
/// the state words afterwards.
pub uninterp spec fn range_draw(state: Seq<u64>, low: u32, high: u32) -> (u32, Seq<u64>);

/// The value of a draw from `low..high` in state `state`.
pub open spec fn drawn(state: Seq<u64>, low: u32, high: u32) -> u32 {
    range_draw(state, low, high).0
}

/// The state after a draw from `low..high` in state `state`.
pub open spec fn after_draw(state: Seq<u64>, low: u32, high: u32) -> Seq<u64> {
    range_draw(state, low, high).1
}

/// `Xoshiro256PlusPlus::seed_from_u64`: the state of the new generator is
/// determined by the seed alone.
#[verifier::external_body]
pub(crate) fn seeded_generator(seed: u64) -> (rng: Xoshiro256PlusPlus)
    ensures
        generator_state(rng) == seeded_state(seed),
{
    Xoshiro256PlusPlus::seed_from_u64(seed)
}

/// `Rng::gen_range` on the half-open range `low..high` of `u32`: the value
/// lies in the range, and both it and the state left behind are determined
/// by the state before and the two bounds. An empty range is excluded, since
/// `gen_range` panics on it.
#[verifier::external_body]
pub(crate) fn draw_range(rng: &mut Xoshiro256PlusPlus, low: u32, high: u32) -> (value: u32)
    requires
        low < high,
    ensures
        low <= value < high,
        value == range_draw(generator_state(*old(rng)), low, high).0,
        generator_state(*final(rng)) == range_draw(generator_state(*old(rng)), low, high).1,
{
    rng.gen_range(low..high)
}

} // verus!
