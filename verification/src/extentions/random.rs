use rand::seq::SliceRandom;
use rand::Rng;
use vstd::prelude::*;

verus! {

/// `SliceRandom::shuffle` (rand) with the thread-local generator: a Fisher-Yates
/// shuffle made of swaps, so the vector keeps the same elements, each as often as
/// before; which order comes out rests on chance and is not stated.
#[verifier::external_body]
pub(crate) fn shuffle<T>(v: &mut Vec<T>)
    ensures
        final(v)@.to_multiset() == old(v)@.to_multiset(),
        final(v)@.len() == old(v)@.len(),
{
    v.shuffle(&mut rand::thread_rng());
}

/// `Rng::gen_range` (rand) on `low..high` with the thread-local generator: a number in
/// the range, which one rests on chance. The range must not be empty (it panics there).
#[verifier::external_body]
pub(crate) fn random_in_range(low: i32, high: i32) -> (r: i32)
    requires
        low < high,
    ensures
        low <= r < high,
{
    rand::thread_rng().gen_range(low..high)
}

} // verus!
