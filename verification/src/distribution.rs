//! The dealt state: five cards per seat, twelve still on the stack, about
//! to turn the top card face up for the auction.

use vstd::prelude::*;

use crate::bidding::Bidding;
use crate::errors::BeloteErrorKind;
use crate::game::Game;
use crate::hands::Hands;
use crate::initial::Initial;
use crate::position::Position;

verus! {

#[derive(Debug)]
pub struct Distribution {
    pub hands: Hands,
    pub initial: Initial,
}

impl Distribution {
    /// Every seat holds five cards and twelve rest on the stack; together
    /// they are the 32 cards of the deck, each exactly once.
    pub open spec fn wf(self) -> bool {
        &&& self.initial.order.wf()
        &&& self.initial.stack.cards@.len() == 12
        &&& forall|p: Position| (#[trigger] self.hands.spec_cards(p)).len() == 5
        &&& self.hands.spec_multiset().add(self.initial.stack.cards@.to_multiset())
            == crate::stack::full_deck().to_multiset()
    }

    /// Card conservation after the deal: the four hands and the stack hold
    /// the 32 cards together, each exactly once.
    pub proof fn lemma_card_conservation(self)
        requires
            self.wf(),
        ensures
            self.hands.spec_total() + self.initial.stack.cards@.len() == 32,
            self.hands.spec_multiset().add(self.initial.stack.cards@.to_multiset())
                == crate::stack::full_deck().to_multiset(),
    {
        assert(self.hands.spec_cards(Position::North).len() == 5);
        assert(self.hands.spec_cards(Position::East).len() == 5);
        assert(self.hands.spec_cards(Position::South).len() == 5);
        assert(self.hands.spec_cards(Position::West).len() == 5);
    }

    pub fn new(hands: Hands, initial: Initial) -> (r: Self)
        ensures
            r.hands == hands,
            r.initial == initial,
    {
        Self { hands, initial }
    }
}

impl Game<Distribution> {
    /// Turn the top card of the stack face up: it seeds the auction.
    pub fn bidding(self) -> (r: Result<Game<Bidding>, BeloteErrorKind>)
        requires
            self.state.wf(),
        ensures
            r matches Ok(g) ==> {
                &&& g.players == self.players
                &&& g.points == self.points
                &&& g.state.card_returned == self.state.initial.stack.cards@.last()
                &&& g.state.hands == self.state.hands
                &&& g.state.initial.order == self.state.initial.order
                &&& g.state.initial.number == self.state.initial.number
                &&& g.state.initial.litige == self.state.initial.litige
                &&& g.state.initial.stack.cards@ == self.state.initial.stack.cards@.drop_last()
                &&& g.state.wf()
            },
            r.is_ok(),
    {
        let Game { players, points, state } = self;
        let Distribution { hands, initial } = state;
        let ghost hands_ms = hands.spec_multiset();
        let ghost stack_ms = initial.stack.cards@.to_multiset();
        let mut initial = initial;
        let card_returned = initial.stack.give_card()?;
        proof {
            crate::hands::lemma_multiset_transfer(hands_ms, stack_ms, card_returned);
        }
        Ok(Game::new(players, points, Bidding::new(card_returned, hands, initial)))
    }
}

} // verus!
