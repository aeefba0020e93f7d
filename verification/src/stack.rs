//! The face-down stack: the 32-card universe of the game. Built once in a
//! fixed order, shuffled for a fresh round, cut between rounds, consumed by
//! dealing and refilled by settled tricks or a redeal.

use vstd::prelude::*;

use crate::card::{Card, Color, Value};
use crate::errors::BeloteErrorKind;
use crate::rng::{random_below, shuffle_cards};

verus! {

pub const MAX_CARDS: usize = 32;

/// The full 32-card deck in its build order: every (color, value) pair
/// exactly once.
pub open spec fn full_deck() -> Seq<Card> {
    seq![
        Card { color: Color::Club, value: Value::As },
        Card { color: Color::Club, value: Value::King },
        Card { color: Color::Club, value: Value::Queen },
        Card { color: Color::Club, value: Value::Jack },
        Card { color: Color::Club, value: Value::_10 },
        Card { color: Color::Club, value: Value::_9 },
        Card { color: Color::Club, value: Value::_8 },
        Card { color: Color::Club, value: Value::_7 },
        Card { color: Color::Heart, value: Value::As },
        Card { color: Color::Heart, value: Value::King },
        Card { color: Color::Heart, value: Value::Queen },
        Card { color: Color::Heart, value: Value::Jack },
        Card { color: Color::Heart, value: Value::_10 },
        Card { color: Color::Heart, value: Value::_9 },
        Card { color: Color::Heart, value: Value::_8 },
        Card { color: Color::Heart, value: Value::_7 },
        Card { color: Color::Spade, value: Value::As },
        Card { color: Color::Spade, value: Value::King },
        Card { color: Color::Spade, value: Value::Queen },
        Card { color: Color::Spade, value: Value::Jack },
        Card { color: Color::Spade, value: Value::_10 },
        Card { color: Color::Spade, value: Value::_9 },
        Card { color: Color::Spade, value: Value::_8 },
        Card { color: Color::Spade, value: Value::_7 },
        Card { color: Color::Diamond, value: Value::As },
        Card { color: Color::Diamond, value: Value::King },
        Card { color: Color::Diamond, value: Value::Queen },
        Card { color: Color::Diamond, value: Value::Jack },
        Card { color: Color::Diamond, value: Value::_10 },
        Card { color: Color::Diamond, value: Value::_9 },
        Card { color: Color::Diamond, value: Value::_8 },
        Card { color: Color::Diamond, value: Value::_7 },
    ]
}

#[derive(Clone, Debug, Default)]
pub struct Stack {
    pub cards: Vec<Card>,
}

impl Stack {
    /// The stack never holds more than the 32 cards of the game.
    pub open spec fn wf(self) -> bool {
        self.cards@.len() <= 32
    }

    pub fn empty() -> (r: Self)
        ensures
            r.cards@ =~= Seq::<Card>::empty(),
    {
        Stack { cards: Vec::new() }
    }

    /// The full deck in its fixed build order.
    pub fn new() -> (r: Self)
        ensures
            r.cards@ =~= full_deck(),
    {
        let mut cards: Vec<Card> = Vec::new();
        cards.push(Card { color: Color::Club, value: Value::As });
        cards.push(Card { color: Color::Club, value: Value::King });
        cards.push(Card { color: Color::Club, value: Value::Queen });
        cards.push(Card { color: Color::Club, value: Value::Jack });
        cards.push(Card { color: Color::Club, value: Value::_10 });
        cards.push(Card { color: Color::Club, value: Value::_9 });
        cards.push(Card { color: Color::Club, value: Value::_8 });
        cards.push(Card { color: Color::Club, value: Value::_7 });
        cards.push(Card { color: Color::Heart, value: Value::As });
        cards.push(Card { color: Color::Heart, value: Value::King });
        cards.push(Card { color: Color::Heart, value: Value::Queen });
        cards.push(Card { color: Color::Heart, value: Value::Jack });
        cards.push(Card { color: Color::Heart, value: Value::_10 });
        cards.push(Card { color: Color::Heart, value: Value::_9 });
        cards.push(Card { color: Color::Heart, value: Value::_8 });
        cards.push(Card { color: Color::Heart, value: Value::_7 });
        cards.push(Card { color: Color::Spade, value: Value::As });
        cards.push(Card { color: Color::Spade, value: Value::King });
        cards.push(Card { color: Color::Spade, value: Value::Queen });
        cards.push(Card { color: Color::Spade, value: Value::Jack });
        cards.push(Card { color: Color::Spade, value: Value::_10 });
        cards.push(Card { color: Color::Spade, value: Value::_9 });
        cards.push(Card { color: Color::Spade, value: Value::_8 });
        cards.push(Card { color: Color::Spade, value: Value::_7 });
        cards.push(Card { color: Color::Diamond, value: Value::As });
        cards.push(Card { color: Color::Diamond, value: Value::King });
        cards.push(Card { color: Color::Diamond, value: Value::Queen });
        cards.push(Card { color: Color::Diamond, value: Value::Jack });
        cards.push(Card { color: Color::Diamond, value: Value::_10 });
        cards.push(Card { color: Color::Diamond, value: Value::_9 });
        cards.push(Card { color: Color::Diamond, value: Value::_8 });
        cards.push(Card { color: Color::Diamond, value: Value::_7 });
        proof {
            assert(cards@ =~= full_deck());
        }
        Stack { cards }
    }

    /// The full deck, shuffled: the same 32 cards in a random order.
    pub fn random() -> (r: Self)
        ensures
            r.cards@.len() == 32,
            r.cards@.to_multiset() == full_deck().to_multiset(),
    {
        let mut stack = Self::new();
        proof {
            assert(stack.cards@.len() == 32);
        }
        shuffle_cards(&mut stack.cards);
        stack
    }

    /// Rotate the stack by a random offset: the cards before the cut point
    /// move to the back, in order.
    pub fn cut(&mut self)
        requires
            old(self).cards@.len() > 0,
        ensures
            final(self).cards@.len() == old(self).cards@.len(),
            exists|k: int|
                #![auto]
                0 <= k < old(self).cards@.len() && final(self).cards@ == old(
                    self,
                ).cards@.subrange(k, old(self).cards@.len() as int) + old(self).cards@.subrange(
                    0,
                    k,
                ),
            final(self).cards@.to_multiset() == old(self).cards@.to_multiset(),
    {
        let offset = random_below(self.cards.len());
        let ghost orig = self.cards@;
        let ghost n = self.cards@.len() as int;
        let mut i: usize = 0;
        while i < offset
            invariant
                i <= offset,
                offset < n,
                self.cards@.len() == n,
                self.cards@ == orig.subrange(i as int, n) + orig.subrange(0, i as int),
            decreases offset - i,
        {
            let front = self.cards.remove(0);
            self.cards.push(front);
            proof {
                assert(self.cards@ =~= orig.subrange(i + 1, n) + orig.subrange(0, i + 1));
            }
            i = i + 1;
        }
        proof {
            assert(self.cards@ =~= orig.subrange(offset as int, n) + orig.subrange(
                0,
                offset as int,
            ));
            lemma_rotation_keeps_multiset(orig, offset as int);
        }
    }

    /// Put a settled or passed-back card on top; a full stack refuses it.
    pub fn append_card(&mut self, card: Card) -> (r: Result<(), BeloteErrorKind>)
        ensures
            r.is_ok() <==> old(self).cards@.len() < 32,
            r.is_ok() ==> final(self).cards@ == old(self).cards@.push(card),
            r.is_ok() ==> final(self).cards@.to_multiset() == old(
                self,
            ).cards@.to_multiset().insert(card),
            r.is_err() ==> final(self).cards@ == old(self).cards@,
    {
        broadcast use vstd::seq_lib::to_multiset_build;

        if self.cards.len() >= MAX_CARDS {
            return Err(BeloteErrorKind::InvalidCase("cannot append card to stack".to_owned()));
        }
        self.cards.push(card);
        Ok(())
    }

    /// Deal the top card; an empty stack refuses.
    pub fn give_card(&mut self) -> (r: Result<Card, BeloteErrorKind>)
        ensures
            r.is_ok() <==> old(self).cards@.len() > 0,
            r.is_ok() ==> {
                &&& r == Ok::<Card, BeloteErrorKind>(old(self).cards@.last())
                &&& final(self).cards@ == old(self).cards@.drop_last()
                &&& old(self).cards@.to_multiset().count(old(self).cards@.last()) > 0
                &&& final(self).cards@.to_multiset() == old(self).cards@.to_multiset().remove(
                    old(self).cards@.last(),
                )
            },
            r.is_err() ==> final(self).cards@ == old(self).cards@,
    {
        broadcast use vstd::seq_lib::group_to_multiset_ensures;

        match self.cards.pop() {
            Some(card) => {
                proof {
                    let pre = old(self).cards@;
                    assert(pre.contains(card)) by {
                        assert(pre[pre.len() - 1] == card);
                    }
                    assert(pre.drop_last() =~= pre.remove(pre.len() - 1));
                    vstd::seq_lib::to_multiset_remove(pre, pre.len() - 1);
                }
                Ok(card)
            },
            None => Err(BeloteErrorKind::InvalidCase("cannot give a card".to_owned())),
        }
    }

    pub fn len(&self) -> (r: usize)
        ensures
            r == self.cards@.len(),
    {
        self.cards.len()
    }

    pub fn is_empty(&self) -> (r: bool)
        ensures
            r == (self.cards@.len() == 0),
    {
        self.cards.is_empty()
    }
}

/// Rotating a sequence leaves its multiset of elements unchanged.
proof fn lemma_rotation_keeps_multiset(s: Seq<Card>, k: int)
    requires
        0 <= k <= s.len(),
    ensures
        (s.subrange(k, s.len() as int) + s.subrange(0, k)).to_multiset() == s.to_multiset(),
{
    broadcast use vstd::multiset::group_multiset_axioms;

    let a = s.subrange(0, k);
    let b = s.subrange(k, s.len() as int);
    vstd::seq_lib::lemma_multiset_commutative(a, b);
    vstd::seq_lib::lemma_multiset_commutative(b, a);
    assert(a + b =~= s);
    assert(a.to_multiset().add(b.to_multiset()) =~= b.to_multiset().add(a.to_multiset()));
}

} // verus!
