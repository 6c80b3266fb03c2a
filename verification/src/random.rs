//! Chance: the only place where the library draws random numbers.

use rand::seq::SliceRandom;
use rand::Rng;
use vstd::prelude::*;

verus! {

/// A number drawn uniformly from `low..high`.
///
/// Calls `rand::thread_rng().gen_range(low..high)`. Nothing is claimed of the
/// outcome but that it lies in the range; an empty range is excluded because
/// the generator refuses it.
#[verifier::external_body]
pub(crate) fn random_in_range(low: u32, high: u32) -> (r: u32)
    requires
        low < high,
    ensures
        low <= r < high,
{
    rand::thread_rng().gen_range(low..high)
}

/// Puts the items in an order drawn by chance.
///
/// Calls `rand::seq::SliceRandom::shuffle` on the items with
/// `rand::thread_rng()`. The call only swaps items, so the array holds
/// afterwards what it held before, each item as often; nothing is claimed
/// of the order.
#[verifier::external_body]
pub(crate) fn shuffle<T, const N: usize>(items: &mut [T; N])
    ensures
        final(items)@.to_multiset() == old(items)@.to_multiset(),
{
    items.shuffle(&mut rand::thread_rng());
}

} // verus!
