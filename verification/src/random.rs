//! The random source. Every draw the library makes goes through the calls
//! below; their contracts are taken on trust from the `rand` crate and say
//! only what holds of every outcome.

use rand::rngs::ThreadRng;
use rand::seq::SliceRandom;
use rand::Rng;
use vstd::prelude::*;

verus! {

/// `rand::rngs::ThreadRng`, a handle to the calling thread's generator.
/// Nothing is known of its state.
#[verifier::external_type_specification]
#[verifier::external_body]
pub struct ExThreadRng(rand::rngs::ThreadRng);

/// `rand::thread_rng` hands out the calling thread's generator. Nothing is
/// claimed of it. The first call on a thread seeds the generator from the
/// operating system and panics if that source cannot be read.
pub assume_specification[ rand::thread_rng ]() -> (rng: ThreadRng);

/// `picked` takes its items from pairwise different positions of `pool`.
pub open spec fn is_selection<T>(picked: Seq<T>, pool: Seq<T>) -> bool {
    exists|positions: Seq<int>|
        {
            &&& positions.len() == picked.len()
            &&& positions.no_duplicates()
            &&& forall|i: int|
                0 <= i < positions.len() ==> 0 <= #[trigger] positions[i] < pool.len()
                    && picked[i] == pool[positions[i]]
        }
}

/// `SliceRandom::choose_multiple` on a slice, collected: `amount` items of
/// `pool`, or all of them if there are fewer, taken at pairwise different
/// positions and in no particular order.
#[verifier::external_body]
pub(crate) fn choose_multiple<T: Copy>(
    rng: &mut ThreadRng,
    pool: &Vec<T>,
    amount: usize,
) -> (picked: Vec<T>)
    ensures
        picked@.len() == if amount <= pool@.len() {
            amount as int
        } else {
            pool@.len() as int
        },
        is_selection(picked@, pool@),
{
    pool.choose_multiple(rng, amount).copied().collect()
}

/// `SliceRandom::shuffle` on a slice: the same items, rearranged in place.
#[verifier::external_body]
pub(crate) fn shuffle<T>(rng: &mut ThreadRng, items: &mut Vec<T>)
    ensures
        final(items)@.to_multiset() == old(items)@.to_multiset(),
{
    items.shuffle(rng)
}

/// `Rng::gen_range` on `0..bound`: some index below `bound`. The call panics
/// on an empty range, which the precondition rules out.
#[verifier::external_body]
pub(crate) fn gen_index(rng: &mut ThreadRng, bound: usize) -> (index: usize)
    requires
        bound > 0,
    ensures
        index < bound,
{
    rng.gen_range(0..bound)
}

} // verus!
