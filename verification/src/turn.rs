//! One trick: the led (called) color, the up-to-four cards placed, one per
//! seat, and the seat currently mastering the trick.

use vstd::prelude::*;

use crate::card::{Card, Color};
use crate::order::Order;
use crate::position::Position;
use crate::team::Team;

verus! {

/// What one trick slot holds, as a multiset.
pub open spec fn spec_slot_multiset(slot: Option<Card>) -> vstd::multiset::Multiset<Card> {
    match slot {
        Some(card) => vstd::multiset::Multiset::empty().insert(card),
        None => vstd::multiset::Multiset::empty(),
    }
}

#[derive(Clone, Copy, Debug)]
pub struct Turn {
    pub number: u64,
    pub order: Order,
    pub called_color: Option<Color>,
    pub north: Option<Card>,
    pub east: Option<Card>,
    pub south: Option<Card>,
    pub west: Option<Card>,
    pub master_position: Position,
}

impl Turn {
    pub open spec fn spec_card_of(self, position: Position) -> Option<Card> {
        match position {
            Position::North => self.north,
            Position::East => self.east,
            Position::South => self.south,
            Position::West => self.west,
        }
    }

    pub open spec fn spec_master_card(self) -> Option<Card> {
        self.spec_card_of(self.master_position)
    }

    pub open spec fn spec_finished(self) -> bool {
        &&& self.north is Some
        &&& self.south is Some
        &&& self.east is Some
        &&& self.west is Some
    }

    /// The cards placed in this trick, as a multiset.
    pub open spec fn spec_multiset(self) -> vstd::multiset::Multiset<Card> {
        spec_slot_multiset(self.north).add(spec_slot_multiset(self.east)).add(
            spec_slot_multiset(self.south),
        ).add(spec_slot_multiset(self.west))
    }

    /// How many cards have been placed in this trick.
    pub open spec fn spec_placed(self) -> int {
        (if self.north is Some {
            1int
        } else {
            0int
        }) + (if self.east is Some {
            1int
        } else {
            0int
        }) + (if self.south is Some {
            1int
        } else {
            0int
        }) + (if self.west is Some {
            1int
        } else {
            0int
        })
    }

    /// A trick with no card placed holds the empty multiset.
    pub proof fn lemma_empty_multiset(self)
        requires
            self.spec_placed() == 0,
        ensures
            self.spec_multiset() == vstd::multiset::Multiset::<Card>::empty(),
    {
        broadcast use vstd::multiset::group_multiset_axioms;

        assert(self.spec_multiset() =~= vstd::multiset::Multiset::<Card>::empty());
    }

    /// Placing a card in a free slot inserts it into the trick's multiset.
    pub proof fn lemma_put_multiset(self, position: Position, card: Card, trump_color: Color)
        requires
            self.spec_card_of(position) is None,
        ensures
            self.spec_after_put(position, card, trump_color).spec_multiset()
                == self.spec_multiset().insert(card),
    {
        broadcast use vstd::multiset::group_multiset_axioms;

        let after = self.spec_after_put(position, card, trump_color);
        match position {
            Position::North => {
                assert(after.spec_multiset() =~= self.spec_multiset().insert(card));
            },
            Position::East => {
                assert(after.spec_multiset() =~= self.spec_multiset().insert(card));
            },
            Position::South => {
                assert(after.spec_multiset() =~= self.spec_multiset().insert(card));
            },
            Position::West => {
                assert(after.spec_multiset() =~= self.spec_multiset().insert(card));
            },
        }
    }

    pub fn new(number: u64, order: Order) -> (r: Self)
        ensures
            r.number == number,
            r.order == order,
            r.master_position == order.seats[0],
            r.called_color == None::<Color>,
            r.north == None::<Card>,
            r.east == None::<Card>,
            r.south == None::<Card>,
            r.west == None::<Card>,
    {
        let master_position = order.first();
        Self {
            number,
            order,
            master_position,
            called_color: None,
            east: None,
            north: None,
            south: None,
            west: None,
        }
    }

    /// The four cards, available once every seat has played.
    pub fn take(self) -> (r: Option<[Card; 4]>)
        ensures
            self.spec_finished() ==> r == Some(
                [
                    self.north.unwrap(),
                    self.east.unwrap(),
                    self.south.unwrap(),
                    self.west.unwrap(),
                ],
            ),
            !self.spec_finished() ==> r == None::<[Card; 4]>,
    {
        match (self.north, self.east, self.south, self.west) {
            (Some(north), Some(east), Some(south), Some(west)) => Some([north, east, south, west]),
            _ => None,
        }
    }

    /// The led color after a card is considered: set on the first card.
    pub open spec fn spec_called_after(self, card: Card) -> Option<Color> {
        if self.spec_master_card() is None {
            Some(card.color)
        } else {
            self.called_color
        }
    }

    /// The mastering seat after `position` places `card`: the placing seat
    /// on the first card or when the card beats the master card.
    pub open spec fn spec_master_after(self, position: Position, card: Card, trump_color: Color) -> Position {
        match self.spec_master_card() {
            None => position,
            Some(mc) => if mc.spec_master(card, trump_color) {
                self.master_position
            } else {
                position
            },
        }
    }

    /// `self` with the led color and master bookkeeping of placing `card`
    /// for `position`, but the card slot untouched (the refused double
    /// play).
    pub open spec fn spec_bookkept(self, position: Position, card: Card, trump_color: Color) -> Turn {
        Turn {
            called_color: self.spec_called_after(card),
            master_position: self.spec_master_after(position, card, trump_color),
            ..self
        }
    }

    /// `self` after `position` places `card`: the bookkeeping above plus
    /// the card in the seat's slot.
    pub open spec fn spec_after_put(self, position: Position, card: Card, trump_color: Color) -> Turn {
        let booked = self.spec_bookkept(position, card, trump_color);
        match position {
            Position::North => Turn { north: Some(card), ..booked },
            Position::East => Turn { east: Some(card), ..booked },
            Position::South => Turn { south: Some(card), ..booked },
            Position::West => Turn { west: Some(card), ..booked },
        }
    }

    /// Place `card` for `position`. On the first card the led color is set
    /// and the seat becomes master; afterwards the master only changes when
    /// the placed card beats the master card. A seat that already played is
    /// refused (the master bookkeeping above still ran) and nothing is
    /// placed.
    pub fn put(&mut self, trump_color: Color, position: Position, card: &Card) -> (r: bool)
        ensures
            r == (old(self).spec_card_of(position) is None),
            r ==> *final(self) == old(self).spec_after_put(position, *card, trump_color),
            !r ==> *final(self) == old(self).spec_bookkept(position, *card, trump_color),
            r ==> final(self).spec_placed() == old(self).spec_placed() + 1,
            !r ==> final(self).spec_placed() == old(self).spec_placed(),
    {
        match self.master_card() {
            None => {
                self.called_color = Some(card.color());
                self.master_position = position;
            },
            Some(master_card) => {
                if !master_card.master(*card, trump_color) {
                    self.master_position = position;
                }
            },
        }
        match position {
            Position::North => {
                if self.north.is_some() {
                    return false;
                }
                self.north = Some(*card);
            },
            Position::East => {
                if self.east.is_some() {
                    return false;
                }
                self.east = Some(*card);
            },
            Position::South => {
                if self.south.is_some() {
                    return false;
                }
                self.south = Some(*card);
            },
            Position::West => {
                if self.west.is_some() {
                    return false;
                }
                self.west = Some(*card);
            },
        }
        true
    }

    pub fn is_first(&self) -> (r: bool)
        ensures
            r == (self.called_color is None),
    {
        self.called_color.is_none()
    }

    pub fn finished(&self) -> (r: bool)
        ensures
            r == self.spec_finished(),
    {
        self.north.is_some() && self.south.is_some() && self.east.is_some() && self.west.is_some()
    }

    pub fn number(&self) -> (r: u64)
        ensures
            r == self.number,
    {
        self.number
    }

    pub fn master_position(&self) -> (r: Position)
        ensures
            r == self.master_position,
    {
        self.master_position
    }

    pub fn master_card(&self) -> (r: Option<Card>)
        ensures
            r == self.spec_master_card(),
    {
        match self.master_position {
            Position::North => self.north,
            Position::East => self.east,
            Position::South => self.south,
            Position::West => self.west,
        }
    }

    pub fn master_color(&self) -> (r: Option<Color>)
        ensures
            r == match self.spec_master_card() {
                Some(c) => Some(c.color),
                None => None::<Color>,
            },
    {
        match self.master_card() {
            Some(card) => Some(card.color()),
            None => None,
        }
    }

    pub fn master_team(&self) -> (r: Team)
        ensures
            r == self.master_position.spec_team(),
    {
        self.master_position.team()
    }

    pub fn called_color(&self) -> (r: Option<Color>)
        ensures
            r == self.called_color,
    {
        self.called_color
    }
}

} // verus!
