//! The random source of the simulation: the `rand` crate's standard generator,
//! and the four calls that the engine makes on it. Nothing here is proved:
//! each contract states what `rand` documents of the call.

use vstd::prelude::*;
use rand::rngs::{OsRng, StdRng};
use rand::{Rng, SeedableRng};

verus! {

/// `rand::rngs::StdRng`, the generator that a tick draws from. It can be
/// seeded with `SeedableRng::seed_from_u64`, so that a run can be repeated.
#[verifier::external_type_specification]
#[verifier::external_body]
pub struct ExStdRng(StdRng);

/// `SeedableRng::from_rng` on `OsRng`: a generator seeded by the operating
/// system, or `None` where the system gives no seed. Nothing is claimed of
/// which of the two comes back, nor of the generator.
#[verifier::external_body]
pub(crate) fn os_generator() -> Option<StdRng> {
    StdRng::from_rng(OsRng).ok()
}

/// `SeedableRng::seed_from_u64`: the generator that `seed` gives. Nothing is
/// claimed of it.
#[verifier::external_body]
pub(crate) fn seeded_generator(seed: u64) -> StdRng {
    StdRng::seed_from_u64(seed)
}

/// `Rng::gen::<bool>`: either value may come back, so nothing is claimed.
#[verifier::external_body]
pub(crate) fn draw_side(rng: &mut StdRng) -> bool {
    rng.gen::<bool>()
}

/// `Rng::gen_range` on a half-open range of `i32`. `rand` panics on an empty
/// range, which `requires` leaves out, and returns a value of the range.
#[verifier::external_body]
pub(crate) fn draw_reach(rng: &mut StdRng, low: i32, high: i32) -> (reach: i32)
    requires
        low < high,
    ensures
        low <= reach < high,
{
    rng.gen_range(low..high)
}

} // verus!
