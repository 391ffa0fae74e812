//! The seeded shuffle that orders a permutation table.

use rand::seq::SliceRandom;
use rand::SeedableRng;
use rand_xoshiro::SplitMix64;
use vstd::prelude::*;

verus! {

/// The order in which `rand`'s slice shuffle leaves `items` when it draws
/// from a SplitMix64 generator seeded with `seed`.
pub uninterp spec fn shuffled(seed: u64, items: Seq<u8>) -> Seq<u8>;

/// Shuffles `items` in place with `rand::seq::SliceRandom::shuffle`, driven
/// by the generator that `rand_xoshiro::SplitMix64::seed_from_u64` makes
/// from `seed`.
///
/// Trusted, not proved: the outcome depends on `seed` and on the items
/// alone, and the shuffle only swaps items, so that each one occurs as often
/// afterwards as before.
#[verifier::external_body]
pub(crate) fn shuffle_seeded(seed: u64, items: &mut Vec<u8>)
    ensures
        final(items)@ == shuffled(seed, old(items)@),
        final(items)@.to_multiset() == old(items)@.to_multiset(),
{
    let mut prng = SplitMix64::seed_from_u64(seed);
    items.shuffle(&mut prng);
}

} // verus!
