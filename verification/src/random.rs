//! The one source of chance in the simulation.

use vstd::prelude::*;
use rand::Rng;

verus! {

/// Draws a number from `low` up to, but not including, `high`.
///
/// The draw is made by `rand::Rng::gen_range` on the generator that
/// `rand::thread_rng` hands out. Nothing is proved about it: that the
/// result lies in the range is what the `rand` crate documents. Which
/// number comes out is left open, so two draws from one range may differ.
/// The call panics unless `low < high`, which the precondition rules out;
/// it also panics if the system cannot seed the generator, which nothing
/// here can rule out.
#[verifier::external_body]
pub(crate) fn random_between(low: i64, high: i64) -> (drawn: i64)
    requires
        low < high,
    ensures
        low <= drawn < high,
{
    rand::thread_rng().gen_range(low, high)
}

} // verus!
