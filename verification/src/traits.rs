//! The small capabilities shared across round phases.

use vstd::prelude::*;

use crate::card::Color;
use crate::hand::Hand;
use crate::initial::Initial;
use crate::order::Order;

verus! {

/// A phase that knows the round's seating order.
pub trait PlayingOrder {
    fn order(&self) -> Order;
}

impl PlayingOrder for Initial {
    fn order(&self) -> Order {
        self.order
    }
}

/// A holder of cards that can be checked for the trump queen and king.
pub trait BeloteRebelote {
    fn belote_rebelote(&self, trump_color: Color) -> bool;
}

impl BeloteRebelote for Hand {
    fn belote_rebelote(&self, trump_color: Color) -> bool {
        Hand::belote_rebelote(self, trump_color)
    }
}

} // verus!
