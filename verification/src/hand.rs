//! A player's held cards: at most eight, in stable insertion order. Cards
//! move between hand and stack but are never duplicated here: `take` appends
//! one card, `give` removes one.

use vstd::prelude::*;

use crate::card::{Card, Color, Value};
use crate::errors::BeloteErrorKind;

verus! {

pub const MAX_CARDS_BY_PLAYER: usize = 8;

#[derive(Clone, Debug, Default)]
pub struct Hand {
    pub cards: Vec<Card>,
}

impl Hand {
    /// A hand never holds more than eight cards.
    pub open spec fn wf(self) -> bool {
        self.cards@.len() <= 8
    }

    pub fn new() -> (r: Self)
        ensures
            r.cards@ =~= Seq::<Card>::empty(),
            r.wf(),
    {
        Hand { cards: Vec::new() }
    }

    /// Both the queen and the king of trumps are here.
    pub open spec fn spec_belote_rebelote(self, trump_color: Color) -> bool {
        &&& self.cards@.contains(Card { color: trump_color, value: Value::Queen })
        &&& self.cards@.contains(Card { color: trump_color, value: Value::King })
    }

    pub fn belote_rebelote(&self, trump_color: Color) -> (r: bool)
        ensures
            r == self.spec_belote_rebelote(trump_color),
    {
        let ghost q = Card { color: trump_color, value: Value::Queen };
        let ghost k = Card { color: trump_color, value: Value::King };
        let mut queen = false;
        let mut king = false;
        let mut i: usize = 0;
        while i < self.cards.len()
            invariant
                i <= self.cards@.len(),
                queen == exists|j: int| 0 <= j < i && self.cards@[j] == q,
                king == exists|j: int| 0 <= j < i && self.cards@[j] == k,
            decreases self.cards@.len() - i,
        {
            let card = self.cards[i];
            if card.color() == trump_color {
                if card.value() == Value::Queen {
                    queen = true;
                    proof {
                        assert(self.cards@[i as int] == q);
                    }
                } else if card.value() == Value::King {
                    king = true;
                    proof {
                        assert(self.cards@[i as int] == k);
                    }
                }
            }
            i = i + 1;
        }
        queen && king
    }

    /// Append a card; full hands refuse it.
    pub fn take(&mut self, card: Card) -> (r: Result<(), BeloteErrorKind>)
        ensures
            r.is_ok() <==> old(self).cards@.len() < 8,
            r.is_ok() ==> final(self).cards@ == old(self).cards@.push(card),
            r.is_err() ==> final(self).cards@ == old(self).cards@,
            r.is_ok() ==> final(self).wf(),
    {
        if self.cards.len() >= MAX_CARDS_BY_PLAYER {
            return Err(BeloteErrorKind::InvalidCase("cannot append card to hand".to_owned()));
        }
        self.cards.push(card);
        Ok(())
    }

    pub fn len(&self) -> (r: usize)
        ensures
            r == self.cards@.len(),
    {
        self.cards.len()
    }

    pub fn is_empty(&self) -> (r: bool)
        ensures
            r == (self.cards@.len() == 0),
    {
        self.cards.is_empty()
    }

    /// Remove the first occurrence of `card`, if the hand holds it.
    pub fn give(&mut self, card: &Card) -> (r: Option<Card>)
        ensures
            old(self).cards@.contains(*card) ==> {
                &&& r == Some(*card)
                &&& exists|i: int|
                    0 <= i < old(self).cards@.len() && old(self).cards@[i] == *card && (forall|
                        j: int,
                    |
                        0 <= j < i ==> old(self).cards@[j] != *card) && final(self).cards@
                        == old(self).cards@.remove(i)
            },
            !old(self).cards@.contains(*card) ==> r == None::<Card> && final(self).cards@ == old(self).cards@,
            final(self).cards@.len() == if old(self).cards@.contains(*card) {
                old(self).cards@.len() - 1
            } else {
                old(self).cards@.len() as int
            },
    {
        let mut i: usize = 0;
        while i < self.cards.len()
            invariant
                i <= self.cards@.len(),
                self.cards@ == old(self).cards@,
                forall|j: int| 0 <= j < i ==> self.cards@[j] != *card,
            decreases self.cards@.len() - i,
        {
            if self.cards[i] == *card {
                proof {
                    assert(self.cards@[i as int] == *card);
                    assert(self.cards@.contains(*card));
                }
                let found = self.cards.remove(i);
                proof {
                    assert((i as int) < old(self).cards@.len() && old(self).cards@[i as int]
                        == *card && (forall|j: int| 0 <= j < i ==> old(self).cards@[j] != *card)
                        && self.cards@ == old(self).cards@.remove(i as int));
                }
                return Some(found);
            }
            i = i + 1;
        }
        proof {
            assert(!self.cards@.contains(*card));
        }
        None
    }
}

} // verus!
