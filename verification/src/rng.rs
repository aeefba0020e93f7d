//! The randomness capability, as two thin trusted wrappers around `rand`.
//! Everything the engine decides with them is verified for every outcome the
//! contracts admit.

use vstd::prelude::*;

use crate::card::Card;
use rand::seq::SliceRandom;
use rand::Rng;

verus! {

/// Relies on rand's `SliceRandom::shuffle`: it permutes the slice in place
/// (a Fisher-Yates walk of swaps), so the cards are the same multiset, in
/// some order.
#[verifier::external_body]
pub fn shuffle_cards(cards: &mut Vec<Card>)
    ensures
        final(cards)@.len() == old(cards)@.len(),
        final(cards)@.to_multiset() == old(cards)@.to_multiset(),
{
    cards.shuffle(&mut rand::thread_rng());
}

/// Relies on rand's `Rng::gen_range` over `0..n`: it returns a value of the
/// range and panics only when the range is empty, which `n >= 1` rules out.
#[verifier::external_body]
pub fn random_below(n: usize) -> (r: usize)
    requires
        n >= 1,
    ensures
        r < n,
{
    rand::thread_rng().gen_range(0..n)
}

} // verus!
