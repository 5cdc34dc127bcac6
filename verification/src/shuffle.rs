//! A shuffle that comes out the same every time.

use rand::rngs::StdRng;
use rand::seq::SliceRandom;
use rand::SeedableRng;
use vstd::prelude::*;

verus! {

/// The order in which `rand` leaves `items` when it shuffles them with its
/// standard generator seeded with `seed`.
pub uninterp spec fn seeded_shuffle(seed: u64, items: Seq<u8>) -> Seq<u8>;

/// Shuffles `items` in place with `rand`'s `SliceRandom::shuffle`, drawing
/// from a `StdRng` made by `SeedableRng::seed_from_u64(seed)`.
///
/// Nothing of this is proved.  It rests on the source of `rand`: the
/// generator's state is fixed by the seed alone, and the shuffle walks the
/// slice from the back and swaps each item with one at a drawn position at
/// or before it, so that the outcome is a rearrangement of the same items
/// that depends on nothing but the seed and the items.
#[verifier::external_body]
pub(crate) fn shuffle_seeded(items: &mut Vec<u8>, seed: u64)
    ensures
        final(items)@ == seeded_shuffle(seed, old(items)@),
        final(items)@.len() == old(items)@.len(),
        final(items)@.to_multiset() == old(items)@.to_multiset(),
{
    let mut rng = StdRng::seed_from_u64(seed);
    items.shuffle(&mut rng);
}

} // verus!
