//! The random numbers that the games and the crab draw, taken from `rand`'s
//! thread-local generator.
use rand::seq::SliceRandom;
use rand::Rng;
use rand::rngs::ThreadRng;
use vstd::prelude::*;

verus! {

/// `rand`'s thread-local generator, carried through the games as an opaque value.
#[verifier::external_type_specification]
#[verifier::external_body]
pub struct ExThreadRng(ThreadRng);

/// Calls `rand::thread_rng`, which hands out a handle on the thread's generator.
/// Nothing is claimed of the handle.
#[verifier::external_body]
pub fn thread_rng() -> ThreadRng {
    rand::thread_rng()
}

/// Calls `Rng::gen_range` on the half-open range `low..high`.
/// Claimed: the value lies in the range. `rand` panics on an empty range, so the
/// range must not be empty. Which value comes out rests on chance.
#[verifier::external_body]
pub fn gen_range(rng: &mut ThreadRng, low: u64, high: u64) -> (r: u64)
    requires
        low < high,
    ensures
        low <= r < high,
{
    rng.gen_range(low..high)
}

/// Calls `SliceRandom::choose` on a slice of copyable items.
/// Claimed: `None` exactly when the slice is empty, otherwise one of its items.
/// Which item comes out rests on chance.
#[verifier::external_body]
pub fn pick<T: Copy>(items: &[T], rng: &mut ThreadRng) -> (r: Option<T>)
    ensures
        r is None <==> items@.len() == 0,
        r matches Some(x) ==> items@.contains(x),
{
    items.choose(rng).copied()
}

/// Calls `SliceRandom::shuffle` on the items of a vector.
/// Claimed: the vector afterwards holds the same items (as a multiset), in an
/// order that rests on chance.
#[verifier::external_body]
pub fn shuffle<T>(items: &mut Vec<T>, rng: &mut ThreadRng)
    ensures
        final(items)@.len() == old(items)@.len(),
        final(items)@.to_multiset() == old(items)@.to_multiset(),
{
    items.as_mut_slice().shuffle(rng)
}

} // verus!
