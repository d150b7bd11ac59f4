//! Random draws, from the generator of the current thread.

use vstd::prelude::*;
use rand::rngs::ThreadRng;
use rand::Rng;

verus! {

/// `rand::rngs::ThreadRng`, the handle to a generator: nothing is known of
/// what it holds.
#[verifier::external_type_specification]
#[verifier::external_body]
pub struct ExThreadRng(ThreadRng);

/// `rand::thread_rng`: a handle to the generator of the current thread.
/// Nothing is claimed of it.
#[verifier::external_body]
pub(crate) fn thread_generator() -> (rng: ThreadRng) {
    rand::thread_rng()
}

/// `rand::Rng::gen_range` on a half-open range of `i64`: some number of the
/// range. An empty range is left out, as the call panics on it.
#[verifier::external_body]
fn sample(rng: &mut ThreadRng, low: i64, high: i64) -> (value: i64)
    requires
        low < high,
    ensures
        low <= value < high,
{
    rng.gen_range(low..high)
}

/// A number drawn from `low..high`. A range that holds no number counts as
/// the range of `low` alone.
pub fn draw(rng: &mut ThreadRng, low: i64, high: i64) -> (value: i64)
    ensures
        low < high ==> low <= value < high,
        low >= high ==> value == low,
{
    if low < high {
        sample(rng, low, high)
    } else {
        low
    }
}

} // verus!
