//! An open pile of cards with no fixed capacity, used to gather cards
//! between rounds.

use vstd::prelude::*;

use crate::card::Card;
use crate::hand::Hand;
use crate::rng::random_below;
use crate::stack::Stack;

verus! {

#[derive(Clone, Debug, Default)]
pub struct Deck {
    pub cards: Vec<Card>,
}

impl Deck {
    pub fn new() -> (r: Self)
        ensures
            r.cards@ =~= Seq::<Card>::empty(),
    {
        Deck { cards: Vec::new() }
    }

    /// Append every card of the stack, in stack order.
    pub fn append_stack_iter(&mut self, stack: &Stack)
        ensures
            final(self).cards@ == old(self).cards@ + stack.cards@,
    {
        let mut i: usize = 0;
        while i < stack.cards.len()
            invariant
                i <= stack.cards@.len(),
                self.cards@ == old(self).cards@ + stack.cards@.subrange(0, i as int),
            decreases stack.cards@.len() - i,
        {
            self.cards.push(stack.cards[i]);
            proof {
                assert(self.cards@ =~= old(self).cards@ + stack.cards@.subrange(0, i + 1));
            }
            i = i + 1;
        }
        proof {
            assert(self.cards@ =~= old(self).cards@ + stack.cards@);
        }
    }

    pub fn append_card(&mut self, card: &Card)
        ensures
            final(self).cards@ == old(self).cards@.push(*card),
    {
        self.cards.push(*card);
    }

    /// Append every card of a hand, in hand order.
    pub fn append_hand(&mut self, hand: Hand)
        ensures
            final(self).cards@ == old(self).cards@ + hand.cards@,
    {
        let mut i: usize = 0;
        while i < hand.cards.len()
            invariant
                i <= hand.cards@.len(),
                self.cards@ == old(self).cards@ + hand.cards@.subrange(0, i as int),
            decreases hand.cards@.len() - i,
        {
            self.cards.push(hand.cards[i]);
            proof {
                assert(self.cards@ =~= old(self).cards@ + hand.cards@.subrange(0, i + 1));
            }
            i = i + 1;
        }
        proof {
            assert(self.cards@ =~= old(self).cards@ + hand.cards@);
        }
    }

    pub fn append_deck(&mut self, deck: Self)
        ensures
            final(self).cards@ == old(self).cards@ + deck.cards@,
    {
        let mut i: usize = 0;
        while i < deck.cards.len()
            invariant
                i <= deck.cards@.len(),
                self.cards@ == old(self).cards@ + deck.cards@.subrange(0, i as int),
            decreases deck.cards@.len() - i,
        {
            self.cards.push(deck.cards[i]);
            proof {
                assert(self.cards@ =~= old(self).cards@ + deck.cards@.subrange(0, i + 1));
            }
            i = i + 1;
        }
        proof {
            assert(self.cards@ =~= old(self).cards@ + deck.cards@);
        }
    }

    pub fn len(&self) -> (r: usize)
        ensures
            r == self.cards@.len(),
    {
        self.cards.len()
    }

    pub fn is_empty(&self) -> (r: bool)
        ensures
            r == (self.cards@.len() == 0),
    {
        self.cards.is_empty()
    }

    /// Rotate the pile by a random offset.
    pub fn cut(&mut self)
        requires
            old(self).cards@.len() > 0,
        ensures
            final(self).cards@.len() == old(self).cards@.len(),
            exists|k: int|
                #![auto]
                0 <= k < old(self).cards@.len() && final(self).cards@ == old(
                    self,
                ).cards@.subrange(k, old(self).cards@.len() as int) + old(self).cards@.subrange(
                    0,
                    k,
                ),
    {
        let offset = random_below(self.cards.len());
        let ghost orig = self.cards@;
        let ghost n = self.cards@.len() as int;
        let mut i: usize = 0;
        while i < offset
            invariant
                i <= offset,
                offset < n,
                self.cards@.len() == n,
                self.cards@ == orig.subrange(i as int, n) + orig.subrange(0, i as int),
            decreases offset - i,
        {
            let front = self.cards.remove(0);
            self.cards.push(front);
            proof {
                assert(self.cards@ =~= orig.subrange(i + 1, n) + orig.subrange(0, i + 1));
            }
            i = i + 1;
        }
        proof {
            assert(self.cards@ =~= orig.subrange(offset as int, n) + orig.subrange(
                0,
                offset as int,
            ));
        }
    }
}

} // verus!
