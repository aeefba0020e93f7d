//! The four hands of a round, one per seat.

use vstd::multiset::Multiset;
use vstd::prelude::*;

use crate::card::Card;
use crate::errors::BeloteErrorKind;
use crate::hand::Hand;
use crate::order::Order;
use crate::position::Position;

verus! {

/// Moving a card from one pile to another leaves the combined multiset
/// unchanged.
pub proof fn lemma_multiset_transfer(
    destination: Multiset<Card>,
    source: Multiset<Card>,
    card: Card,
)
    requires
        source.count(card) > 0,
    ensures
        destination.insert(card).add(source.remove(card)) == destination.add(source),
{
    broadcast use vstd::multiset::group_multiset_axioms;

    assert(destination.insert(card).add(source.remove(card)) =~= destination.add(source));
}

/// The transfer above, under a third pile that does not move.
pub proof fn lemma_transfer_under(
    destination: Multiset<Card>,
    source: Multiset<Card>,
    rest: Multiset<Card>,
    card: Card,
)
    requires
        source.count(card) > 0,
    ensures
        destination.insert(card).add(source.remove(card)).add(rest) == destination.add(source).add(
            rest,
        ),
{
    broadcast use vstd::multiset::group_multiset_axioms;

    lemma_multiset_transfer(destination, source, card);
}

#[derive(Clone, Debug, Default)]
pub struct Hands {
    pub north: Hand,
    pub south: Hand,
    pub east: Hand,
    pub west: Hand,
}

impl Hands {
    pub open spec fn spec_hand(self, position: Position) -> Hand {
        match position {
            Position::North => self.north,
            Position::South => self.south,
            Position::East => self.east,
            Position::West => self.west,
        }
    }

    /// The cards of the given seat's hand.
    pub open spec fn spec_cards(self, position: Position) -> Seq<Card> {
        self.spec_hand(position).cards@
    }

    /// All four hands within their eight-card bound.
    pub open spec fn wf(self) -> bool {
        forall|p: Position| (#[trigger] self.spec_hand(p)).wf()
    }

    /// All the cards the four hands hold together, as a multiset.
    pub open spec fn spec_multiset(self) -> Multiset<Card> {
        self.north.cards@.to_multiset().add(self.east.cards@.to_multiset()).add(
            self.south.cards@.to_multiset(),
        ).add(self.west.cards@.to_multiset())
    }

    /// Appending a card to one hand inserts it into the combined multiset.
    pub proof fn lemma_multiset_take(pre: Hands, post: Hands, position: Position, card: Card)
        requires
            post.spec_cards(position) == pre.spec_cards(position).push(card),
            forall|p: Position| p != position ==> #[trigger] post.spec_cards(p) == pre.spec_cards(p),
        ensures
            post.spec_multiset() == pre.spec_multiset().insert(card),
    {
        broadcast use vstd::multiset::group_multiset_axioms;
        broadcast use vstd::seq_lib::to_multiset_build;

        assert(post.spec_cards(Position::North) == post.north.cards@);
        assert(post.spec_cards(Position::East) == post.east.cards@);
        assert(post.spec_cards(Position::South) == post.south.cards@);
        assert(post.spec_cards(Position::West) == post.west.cards@);
        match position {
            Position::North => {
                assert(post.north.cards@.to_multiset() =~= pre.north.cards@.to_multiset().insert(
                    card,
                ));
            },
            Position::East => {
                assert(post.east.cards@.to_multiset() =~= pre.east.cards@.to_multiset().insert(
                    card,
                ));
            },
            Position::South => {
                assert(post.south.cards@.to_multiset() =~= pre.south.cards@.to_multiset().insert(
                    card,
                ));
            },
            Position::West => {
                assert(post.west.cards@.to_multiset() =~= pre.west.cards@.to_multiset().insert(
                    card,
                ));
            },
        }
        assert(post.spec_multiset() =~= pre.spec_multiset().insert(card));
    }

    /// Removing a card from one hand removes it from the combined multiset.
    pub proof fn lemma_multiset_give(pre: Hands, post: Hands, position: Position, i: int)
        requires
            0 <= i < pre.spec_cards(position).len(),
            post.spec_cards(position) == pre.spec_cards(position).remove(i),
            forall|p: Position| p != position ==> #[trigger] post.spec_cards(p) == pre.spec_cards(p),
        ensures
            post.spec_multiset() == pre.spec_multiset().remove(pre.spec_cards(position)[i]),
            pre.spec_multiset().count(pre.spec_cards(position)[i]) > 0,
    {
        broadcast use vstd::multiset::group_multiset_axioms;
        broadcast use vstd::seq_lib::to_multiset_remove;
        broadcast use vstd::seq_lib::group_to_multiset_ensures;

        let card = pre.spec_cards(position)[i];
        assert(pre.spec_cards(position).to_multiset().count(card) > 0) by {
            assert(pre.spec_cards(position).contains(card));
        }
        assert(post.spec_cards(Position::North) == post.north.cards@);
        assert(post.spec_cards(Position::East) == post.east.cards@);
        assert(post.spec_cards(Position::South) == post.south.cards@);
        assert(post.spec_cards(Position::West) == post.west.cards@);
        match position {
            Position::North => {
                assert(post.north.cards@.to_multiset() =~= pre.north.cards@.to_multiset().remove(
                    card,
                ));
            },
            Position::East => {
                assert(post.east.cards@.to_multiset() =~= pre.east.cards@.to_multiset().remove(
                    card,
                ));
            },
            Position::South => {
                assert(post.south.cards@.to_multiset() =~= pre.south.cards@.to_multiset().remove(
                    card,
                ));
            },
            Position::West => {
                assert(post.west.cards@.to_multiset() =~= pre.west.cards@.to_multiset().remove(
                    card,
                ));
            },
        }
        assert(post.spec_multiset() =~= pre.spec_multiset().remove(card));
    }

    /// Empty hands hold the empty multiset.
    pub proof fn lemma_empty_multiset(self)
        requires
            forall|p: Position| (#[trigger] self.spec_cards(p)).len() == 0,
        ensures
            self.spec_multiset() == Multiset::<Card>::empty(),
    {
        broadcast use vstd::multiset::group_multiset_axioms;
        broadcast use vstd::seq_lib::group_to_multiset_ensures;

        assert(self.spec_cards(Position::North).len() == 0);
        assert(self.spec_cards(Position::East).len() == 0);
        assert(self.spec_cards(Position::South).len() == 0);
        assert(self.spec_cards(Position::West).len() == 0);
        assert forall|c: Card| self.spec_multiset().count(c) == 0 by {
            if self.north.cards@.to_multiset().count(c) > 0 {
                assert(self.north.cards@.contains(c));
            }
            if self.east.cards@.to_multiset().count(c) > 0 {
                assert(self.east.cards@.contains(c));
            }
            if self.south.cards@.to_multiset().count(c) > 0 {
                assert(self.south.cards@.contains(c));
            }
            if self.west.cards@.to_multiset().count(c) > 0 {
                assert(self.west.cards@.contains(c));
            }
        }
        assert(self.spec_multiset() =~= Multiset::<Card>::empty());
    }

    /// The cards of the seats from index `s` of the order on, as a
    /// multiset.
    pub open spec fn spec_suffix_multiset(self, order: Order, s: int) -> Multiset<Card>
        decreases 4 - s,
    {
        if s < 0 || s >= 4 {
            Multiset::empty()
        } else {
            self.spec_cards(order.seats[s]).to_multiset().add(
                self.spec_suffix_multiset(order, s + 1),
            )
        }
    }

    /// Over a well-seated order the suffix from the first seat is the whole
    /// combined multiset.
    pub proof fn lemma_suffix_multiset_full(self, order: Order)
        requires
            order.wf(),
        ensures
            self.spec_suffix_multiset(order, 0) == self.spec_multiset(),
    {
        broadcast use vstd::multiset::group_multiset_axioms;

        reveal_with_fuel(Hands::spec_suffix_multiset, 6);
        order.lemma_wf_covers();
        assert(order.has_seat(Position::North) && order.has_seat(Position::East) && order.has_seat(
            Position::South,
        ) && order.has_seat(Position::West));
        assert(self.spec_suffix_multiset(order, 0) =~= self.spec_multiset());
    }

    /// How many cards the four hands hold together.
    pub open spec fn spec_total(self) -> int {
        self.spec_cards(Position::North).len() + self.spec_cards(Position::South).len()
            + self.spec_cards(Position::East).len() + self.spec_cards(
            Position::West,
        ).len() as int
    }

    pub fn new() -> (r: Self)
        ensures
            forall|p: Position| (#[trigger] r.spec_cards(p)) =~= Seq::<Card>::empty(),
            r.wf(),
    {
        Hands { north: Hand::new(), south: Hand::new(), east: Hand::new(), west: Hand::new() }
    }

    pub fn hand(&self, position: Position) -> (r: &Hand)
        ensures
            *r == self.spec_hand(position),
    {
        match position {
            Position::North => &self.north,
            Position::South => &self.south,
            Position::East => &self.east,
            Position::West => &self.west,
        }
    }

    /// Append a card to one seat's hand; the other hands are untouched.
    pub fn take_card(&mut self, position: Position, card: Card) -> (r: Result<
        (),
        BeloteErrorKind,
    >)
        ensures
            r.is_ok() <==> old(self).spec_cards(position).len() < 8,
            r.is_ok() ==> final(self).spec_cards(position) == old(self).spec_cards(position).push(
                card,
            ),
            r.is_ok() ==> final(self).spec_multiset() == old(self).spec_multiset().insert(card),
            r.is_err() ==> final(self).spec_cards(position) == old(self).spec_cards(position),
            forall|p: Position|
                p != position ==> #[trigger] final(self).spec_cards(p) == old(self).spec_cards(p),
    {
        let r = match position {
            Position::North => self.north.take(card),
            Position::South => self.south.take(card),
            Position::East => self.east.take(card),
            Position::West => self.west.take(card),
        };
        proof {
            if r.is_ok() {
                Self::lemma_multiset_take(*old(self), *self, position, card);
            }
        }
        r
    }

    /// Remove the first occurrence of `card` from one seat's hand.
    pub fn give_card(&mut self, position: Position, card: &Card) -> (r: Option<Card>)
        ensures
            old(self).spec_cards(position).contains(*card) ==> {
                &&& r == Some(*card)
                &&& exists|i: int|
                    0 <= i < old(self).spec_cards(position).len() && old(self).spec_cards(
                        position,
                    )[i] == *card && final(self).spec_cards(position) == old(self).spec_cards(
                        position,
                    ).remove(i)
            },
            !old(self).spec_cards(position).contains(*card) ==> r == None::<Card>
                && final(self).spec_cards(position) == old(self).spec_cards(position),
            final(self).spec_cards(position).len() == if old(self).spec_cards(position).contains(
                *card,
            ) {
                old(self).spec_cards(position).len() - 1
            } else {
                old(self).spec_cards(position).len() as int
            },
            old(self).spec_cards(position).contains(*card) ==> {
                &&& old(self).spec_multiset().count(*card) > 0
                &&& final(self).spec_multiset() == old(self).spec_multiset().remove(*card)
            },
            forall|p: Position|
                p != position ==> #[trigger] final(self).spec_cards(p) == old(self).spec_cards(p),
    {
        let r = match position {
            Position::North => self.north.give(card),
            Position::South => self.south.give(card),
            Position::East => self.east.give(card),
            Position::West => self.west.give(card),
        };
        proof {
            if old(self).spec_cards(position).contains(*card) {
                let i = choose|i: int|
                    0 <= i < old(self).spec_cards(position).len() && old(self).spec_cards(
                        position,
                    )[i] == *card && self.spec_cards(position) == old(self).spec_cards(
                        position,
                    ).remove(i);
                Self::lemma_multiset_give(*old(self), *self, position, i);
            }
        }
        r
    }
}

} // verus!
