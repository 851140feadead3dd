//! The source of randomness for mine placement.

use vstd::prelude::*;
use rand::rngs::ThreadRng;
use rand::Rng;

verus! {

/// `rand::rngs::ThreadRng`, the generator local to the thread; nothing of
/// its inner state is known here.
#[verifier::external_type_specification]
#[verifier::external_body]
pub struct ExThreadRng(ThreadRng);

/// `rand::thread_rng` hands out the thread's generator. Nothing is claimed
/// of it. It gives up only where the system cannot seed the generator.
pub assume_specification[ rand::thread_rng ]() -> (rng: ThreadRng)
;

/// Calls `Rng::gen_range` on the inclusive range from `low` to `high`,
/// which is not empty. Which number comes back is left open: the claim is
/// only that it lies in the range.
#[verifier::external_body]
pub(crate) fn draw_between(rng: &mut ThreadRng, low: u8, high: u8) -> (drawn: u8)
    requires
        low <= high,
    ensures
        low <= drawn <= high,
{
    rng.gen_range(low..=high)
}

} // verus!
