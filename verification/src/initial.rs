//! The resting state between rounds: the seating order, the round number,
//! the reassembled 32-card stack, and the litige pool carried until a round
//! resolves it.

use vstd::prelude::*;

use crate::card::Card;
use crate::distribution::Distribution;
use crate::errors::BeloteErrorKind;
use crate::game::Game;
use crate::hands::Hands;
use crate::order::Order;
use crate::players::Players;
use crate::points::{sat_add, spec_sat_add, Points};
use crate::stack::Stack;

verus! {

#[derive(Debug)]
pub struct Initial {
    pub order: Order,
    pub number: u64,
    pub stack: Stack,
    pub litige: u64,
}

impl Initial {
    /// Between rounds all 32 cards — each exactly once — are back on a
    /// well-seated stack.
    pub open spec fn wf(self) -> bool {
        &&& self.order.wf()
        &&& self.stack.cards@.len() == 32
        &&& self.stack.cards@.to_multiset() == crate::stack::full_deck().to_multiset()
    }

    /// A fresh session state: round zero, no litige, a shuffled stack.
    pub fn new(order: Order) -> (r: Self)
        requires
            order.wf(),
        ensures
            r.order == order,
            r.number == 0,
            r.litige == 0,
            r.wf(),
    {
        Self { order, number: 0, stack: Stack::random(), litige: 0 }
    }

    /// Move to the next round: the dealer rotates, the round number grows,
    /// the stack is cut.
    #[must_use]
    pub fn next(self) -> (r: Self)
        requires
            self.number < u64::MAX,
            self.wf(),
        ensures
            r.order == self.order.spec_rotate(),
            r.number == self.number + 1,
            r.litige == self.litige,
            exists|k: int|
                #![auto]
                0 <= k < 32 && r.stack.cards@ == self.stack.cards@.subrange(k, 32)
                    + self.stack.cards@.subrange(0, k),
            r.stack.cards@.to_multiset() == self.stack.cards@.to_multiset(),
            r.wf(),
    {
        let Initial { mut order, number, mut stack, litige } = self;
        order.rotate();
        stack.cut();
        Initial { order, number: number + 1, stack, litige }
    }

    /// Grow the litige pool, saturating.
    pub fn add_litige(&mut self, litige: u64)
        ensures
            final(self).litige == spec_sat_add(old(self).litige, litige),
            final(self).order == old(self).order,
            final(self).number == old(self).number,
            final(self).stack == old(self).stack,
    {
        self.litige = sat_add(self.litige, litige);
    }

    /// Drain the litige pool and hand back what it held.
    pub fn reset_litige(&mut self) -> (r: u64)
        ensures
            r == old(self).litige,
            final(self).litige == 0,
            final(self).order == old(self).order,
            final(self).number == old(self).number,
            final(self).stack == old(self).stack,
    {
        let old_litige = self.litige;
        self.litige = 0;
        old_litige
    }

    pub fn order(&self) -> (r: Order)
        ensures
            r == self.order,
    {
        self.order
    }

    pub fn number(&self) -> (r: u64)
        ensures
            r == self.number,
    {
        self.number
    }

    pub fn stack(&self) -> (r: &Stack)
        ensures
            *r == self.stack,
    {
        &self.stack
    }
}

/// The five cards seat number `s` of the order receives when dealing from
/// `st`: three in the first sweep, two in the second.
pub open spec fn spec_dealt_hand(st: Seq<Card>, s: int) -> Seq<Card> {
    seq![st[31 - 3 * s], st[30 - 3 * s], st[29 - 3 * s], st[19 - 2 * s], st[18 - 2 * s]]
}

impl Game<Initial> {
    pub fn default(players: Players, order: Order) -> (r: Self)
        requires
            order.wf(),
        ensures
            r.players == players,
            r.points == (Points { north_south: 0u64, west_east: 0u64 }),
            r.state.order == order,
            r.state.number == 0,
            r.state.litige == 0,
            r.state.wf(),
    {
        Self::new(players, Points::new(), Initial::new(order))
    }

    /// Deal the round: three cards to each seat in order, then two more,
    /// leaving twelve cards on the stack.
    pub fn distribute(self) -> (r: Result<Game<Distribution>, BeloteErrorKind>)
        requires
            self.state.wf(),
        ensures
            r matches Ok(g) ==> {
                &&& g.players == self.players
                &&& g.points == self.points
                &&& g.state.initial.order == self.state.order
                &&& g.state.initial.number == self.state.number
                &&& g.state.initial.litige == self.state.litige
                &&& g.state.initial.stack.cards@ == self.state.stack.cards@.subrange(0, 12)
                &&& forall|s: int|
                    0 <= s < 4 ==> #[trigger] g.state.hands.spec_cards(
                        self.state.order.seats[s],
                    ) == spec_dealt_hand(self.state.stack.cards@, s)
                &&& g.state.wf()
            },
            r.is_ok(),
    {
        let Game { players, points, state } = self;
        let Initial { order, number, mut stack, litige } = state;
        let ghost st = stack.cards@;
        let mut hands = Hands::new();
        proof {
            order.lemma_wf_covers();
            broadcast use vstd::multiset::group_multiset_axioms;

            hands.lemma_empty_multiset();
            assert(hands.spec_multiset().add(stack.cards@.to_multiset()) =~= st.to_multiset());
        }
        let mut s: usize = 0;
        while s < 4
            invariant
                s <= 4,
                order.wf(),
                st.len() == 32,
                hands.spec_multiset().add(stack.cards@.to_multiset()) == st.to_multiset(),
                stack.cards@ == st.subrange(0, 32 - 3 * s),
                forall|t: int|
                    0 <= t < s ==> #[trigger] hands.spec_cards(order.seats[t]) == seq![
                        st[31 - 3 * t],
                        st[30 - 3 * t],
                        st[29 - 3 * t],
                    ],
                forall|t: int|
                    s <= t < 4 ==> (#[trigger] hands.spec_cards(order.seats[t])).len() == 0,
            decreases 4 - s,
        {
            let position = order.get(s);
            let ghost h0 = hands.spec_multiset();
            let ghost s0 = stack.cards@.to_multiset();
            let c1 = stack.give_card()?;
            hands.take_card(position, c1)?;
            proof {
                crate::hands::lemma_multiset_transfer(h0, s0, c1);
            }
            let ghost h1 = hands.spec_multiset();
            let ghost s1 = stack.cards@.to_multiset();
            let c2 = stack.give_card()?;
            hands.take_card(position, c2)?;
            proof {
                crate::hands::lemma_multiset_transfer(h1, s1, c2);
            }
            let ghost h2 = hands.spec_multiset();
            let ghost s2 = stack.cards@.to_multiset();
            let c3 = stack.give_card()?;
            hands.take_card(position, c3)?;
            proof {
                crate::hands::lemma_multiset_transfer(h2, s2, c3);
                assert(stack.cards@ =~= st.subrange(0, 32 - 3 * (s + 1)));
                assert(hands.spec_cards(order.seats[s as int]) =~= seq![
                    st[31 - 3 * (s as int)],
                    st[30 - 3 * (s as int)],
                    st[29 - 3 * (s as int)],
                ]);
            }
            s = s + 1;
        }
        let mut s: usize = 0;
        while s < 4
            invariant
                s <= 4,
                order.wf(),
                st.len() == 32,
                hands.spec_multiset().add(stack.cards@.to_multiset()) == st.to_multiset(),
                stack.cards@ == st.subrange(0, 20 - 2 * s),
                forall|t: int|
                    0 <= t < s ==> #[trigger] hands.spec_cards(order.seats[t]) == spec_dealt_hand(
                        st,
                        t,
                    ),
                forall|t: int|
                    s <= t < 4 ==> #[trigger] hands.spec_cards(order.seats[t]) == seq![
                        st[31 - 3 * t],
                        st[30 - 3 * t],
                        st[29 - 3 * t],
                    ],
            decreases 4 - s,
        {
            let position = order.get(s);
            let ghost h0 = hands.spec_multiset();
            let ghost s0 = stack.cards@.to_multiset();
            let c1 = stack.give_card()?;
            hands.take_card(position, c1)?;
            proof {
                crate::hands::lemma_multiset_transfer(h0, s0, c1);
            }
            let ghost h1 = hands.spec_multiset();
            let ghost s1 = stack.cards@.to_multiset();
            let c2 = stack.give_card()?;
            hands.take_card(position, c2)?;
            proof {
                crate::hands::lemma_multiset_transfer(h1, s1, c2);
                assert(stack.cards@ =~= st.subrange(0, 20 - 2 * (s + 1)));
                assert(hands.spec_cards(order.seats[s as int]) =~= spec_dealt_hand(
                    st,
                    s as int,
                ));
            }
            s = s + 1;
        }
        proof {
            assert forall|p: crate::position::Position|
                (#[trigger] hands.spec_cards(p)).len() == 5 by {
                assert(order.has_seat(p));
                let i = choose|i: int| 0 <= i <= 3 && order.seats[i] == p;
                assert(hands.spec_cards(order.seats[i]) == spec_dealt_hand(st, i));
            }
        }
        Ok(Game::new(players, points, Distribution::new(hands, Initial {
            order,
            number,
            stack,
            litige,
        })))
    }
}

} // verus!
