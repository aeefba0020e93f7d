//! The auction: two ordered passes over the seats. In the first pass the
//! first seat to take plays at the returned card's color; in the second the
//! first seat to name another color plays at it; if every seat declines
//! twice, the cards go back and the round is redealt. A cancellation at any
//! seat interrupts the round.

use vstd::prelude::*;

use crate::card::{Card, Color};
use crate::errors::BeloteErrorKind;
use crate::game::Game;
use crate::hand::Hand;
use crate::hands::Hands;
use crate::initial::Initial;
use crate::playing::Playing;
use crate::position::Position;

verus! {

pub enum PlayOrNext {
    NextGame(Game<Initial>),
    PlayGame(Game<Playing>),
    Interrupted,
}

/// A seat's answer in the first pass.
#[derive(Clone, Copy, Debug, PartialEq, Eq, Structural)]
pub enum BidAnswer {
    Take,
    Decline,
    Cancel,
}

/// A seat's answer in the second pass.
#[derive(Clone, Copy, Debug, PartialEq, Eq, Structural)]
pub enum TrumpAnswer {
    Chosen(Color),
    Pass,
    Cancel,
}

pub open spec fn all_declined(a: Seq<BidAnswer>) -> bool {
    forall|j: int| 0 <= j < a.len() ==> a[j] == BidAnswer::Decline
}

pub open spec fn all_passed(a: Seq<TrumpAnswer>) -> bool {
    forall|j: int| 0 <= j < a.len() ==> a[j] == TrumpAnswer::Pass
}

/// `k` is the first seat of the pass that did not decline.
pub open spec fn first_undeclined(a: Seq<BidAnswer>, k: int) -> bool {
    &&& 0 <= k < a.len()
    &&& a[k] != BidAnswer::Decline
    &&& forall|j: int| 0 <= j < k ==> a[j] == BidAnswer::Decline
}

/// `k` is the first seat of the pass that did not pass.
pub open spec fn first_unpassed(a: Seq<TrumpAnswer>, k: int) -> bool {
    &&& 0 <= k < a.len()
    &&& a[k] != TrumpAnswer::Pass
    &&& forall|j: int| 0 <= j < k ==> a[j] == TrumpAnswer::Pass
}

/// A four-answer pass that is not all declines has a first undeclined
/// answer.
pub proof fn lemma_undeclined_exists(a: Seq<BidAnswer>)
    requires
        a.len() == 4,
        !all_declined(a),
    ensures
        exists|k: int| first_undeclined(a, k),
{
    if a[0] != BidAnswer::Decline {
        assert(first_undeclined(a, 0));
    } else if a[1] != BidAnswer::Decline {
        assert(first_undeclined(a, 1));
    } else if a[2] != BidAnswer::Decline {
        assert(first_undeclined(a, 2));
    } else if a[3] != BidAnswer::Decline {
        assert(first_undeclined(a, 3));
    } else {
        assert(all_declined(a)) by {
            assert forall|j: int| 0 <= j < a.len() implies a[j] == BidAnswer::Decline by {
                if j == 0 {
                } else if j == 1 {
                } else if j == 2 {
                } else {
                    assert(j == 3);
                }
            }
        }
    }
}

/// A four-answer pass that is not all passes has a first unpassed answer.
pub proof fn lemma_unpassed_exists(a: Seq<TrumpAnswer>)
    requires
        a.len() == 4,
        !all_passed(a),
    ensures
        exists|k: int| first_unpassed(a, k),
{
    if a[0] != TrumpAnswer::Pass {
        assert(first_unpassed(a, 0));
    } else if a[1] != TrumpAnswer::Pass {
        assert(first_unpassed(a, 1));
    } else if a[2] != TrumpAnswer::Pass {
        assert(first_unpassed(a, 2));
    } else if a[3] != TrumpAnswer::Pass {
        assert(first_unpassed(a, 3));
    } else {
        assert(all_passed(a)) by {
            assert forall|j: int| 0 <= j < a.len() implies a[j] == TrumpAnswer::Pass by {
                if j == 0 {
                } else if j == 1 {
                } else if j == 2 {
                } else {
                    assert(j == 3);
                }
            }
        }
    }
}

/// How many cards leave the stack before seat number `s` of the order
/// completes its hand, when the taker sits at index `k`: three per earlier
/// seat, but only two for the taker.
pub open spec fn spec_pops_before(k: int, s: int) -> int {
    3 * s - (if k < s {
        1int
    } else {
        0int
    })
}

/// The cards seat number `s` of the order receives when the hands are
/// completed from the eleven-card stack `st`, the taker sitting at index
/// `k`: two cards off the top of what is left for the taker, three for
/// every other seat.
pub open spec fn spec_completion(st: Seq<Card>, k: int, s: int) -> Seq<Card> {
    let top = 10 - spec_pops_before(k, s);
    if s == k {
        seq![st[top], st[top - 1]]
    } else {
        seq![st[top], st[top - 1], st[top - 2]]
    }
}

#[derive(Debug)]
pub struct Bidding {
    pub card_returned: Card,
    pub hands: Hands,
    pub initial: Initial,
}

impl Bidding {
    /// Five cards per seat, one turned up, eleven on the stack; together
    /// they are the 32 cards of the deck, each exactly once.
    pub open spec fn wf(self) -> bool {
        &&& self.initial.order.wf()
        &&& self.initial.stack.cards@.len() == 11
        &&& forall|p: Position| (#[trigger] self.hands.spec_cards(p)).len() == 5
        &&& self.hands.spec_multiset().insert(self.card_returned).add(
            self.initial.stack.cards@.to_multiset(),
        ) == crate::stack::full_deck().to_multiset()
    }

    /// Card conservation during the auction: the four hands, the returned
    /// card and the stack hold the 32 cards together, each exactly once.
    pub proof fn lemma_card_conservation(self)
        requires
            self.wf(),
        ensures
            self.hands.spec_total() + 1 + self.initial.stack.cards@.len() == 32,
            self.hands.spec_multiset().insert(self.card_returned).add(
                self.initial.stack.cards@.to_multiset(),
            ) == crate::stack::full_deck().to_multiset(),
    {
        assert(self.hands.spec_cards(Position::North).len() == 5);
        assert(self.hands.spec_cards(Position::East).len() == 5);
        assert(self.hands.spec_cards(Position::South).len() == 5);
        assert(self.hands.spec_cards(Position::West).len() == 5);
    }

    pub fn new(card_returned: Card, hands: Hands, initial: Initial) -> (r: Self)
        ensures
            r.card_returned == card_returned,
            r.hands == hands,
            r.initial == initial,
    {
        Self { card_returned, hands, initial }
    }

    pub fn into(self) -> (r: Initial)
        ensures
            r == self.initial,
    {
        self.initial
    }

    pub fn hand(&self, position: Position) -> (r: &Hand)
        ensures
            *r == self.hands.spec_hand(position),
    {
        self.hands.hand(position)
    }

    /// Deal `count` more cards from the stack to one seat.
    pub fn complete_hand(&mut self, position: Position, count: usize) -> (r: Result<
        (),
        BeloteErrorKind,
    >)
        requires
            count <= old(self).initial.stack.cards@.len(),
            old(self).hands.spec_cards(position).len() + count <= 8,
        ensures
            r.is_ok(),
            final(self).hands.spec_multiset().add(final(self).initial.stack.cards@.to_multiset())
                == old(self).hands.spec_multiset().add(
                old(self).initial.stack.cards@.to_multiset(),
            ),
            final(self).initial.stack.cards@ == old(self).initial.stack.cards@.take(
                old(self).initial.stack.cards@.len() - count,
            ),
            final(self).hands.spec_cards(position).len() == old(self).hands.spec_cards(
                position,
            ).len() + count,
            forall|j: int|
                0 <= j < old(self).hands.spec_cards(position).len()
                    ==> final(self).hands.spec_cards(position)[j]
                    == old(self).hands.spec_cards(position)[j],
            forall|j: int|
                #![trigger final(self).hands.spec_cards(position)[old(self).hands.spec_cards(position).len() + j]]
                0 <= j < count
                    ==> final(self).hands.spec_cards(position)[old(self).hands.spec_cards(position).len() + j]
                    == old(self).initial.stack.cards@[old(self).initial.stack.cards@.len() - 1 - j],
            forall|p: Position|
                p != position ==> #[trigger] final(self).hands.spec_cards(p)
                    == old(self).hands.spec_cards(p),
            final(self).card_returned == old(self).card_returned,
            final(self).initial.order == old(self).initial.order,
            final(self).initial.number == old(self).initial.number,
            final(self).initial.litige == old(self).initial.litige,
    {
        let ghost st = self.initial.stack.cards@;
        let ghost h0 = self.hands.spec_cards(position);
        let mut i: usize = 0;
        while i < count
            invariant
                i <= count,
                count <= st.len(),
                h0.len() + count <= 8,
                self.hands.spec_multiset().add(self.initial.stack.cards@.to_multiset()) == old(
                    self,
                ).hands.spec_multiset().add(old(self).initial.stack.cards@.to_multiset()),
                self.initial.stack.cards@ == st.take(st.len() - i),
                self.hands.spec_cards(position).len() == h0.len() + i,
                forall|j: int|
                    0 <= j < h0.len() ==> #[trigger] self.hands.spec_cards(position)[j] == h0[j],
                forall|j: int|
                    0 <= j < i ==> #[trigger] self.hands.spec_cards(position)[h0.len() + j]
                        == st[st.len() - 1 - j],
                forall|p: Position|
                    p != position ==> #[trigger] self.hands.spec_cards(p)
                        == old(self).hands.spec_cards(p),
                self.card_returned == old(self).card_returned,
                self.initial.order == old(self).initial.order,
                self.initial.number == old(self).initial.number,
                self.initial.litige == old(self).initial.litige,
            decreases count - i,
        {
            let ghost hands_ms = self.hands.spec_multiset();
            let ghost stack_ms = self.initial.stack.cards@.to_multiset();
            let card = self.initial.stack.give_card()?;
            self.hands.take_card(position, card)?;
            proof {
                crate::hands::lemma_multiset_transfer(hands_ms, stack_ms, card);
                assert(self.initial.stack.cards@ =~= st.take(st.len() - (i + 1)));
            }
            i = i + 1;
        }
        Ok(())
    }
}

impl Game<Bidding> {
    /// Resolve the auction from the two passes' answers. The first taker
    /// receives the returned card and two more from the stack, every other
    /// seat three more; a second-pass color equal to the returned card's is
    /// a caller error; a cancellation interrupts; all seats declining twice
    /// redeals with the dealer rotated and no score change.
    pub fn playing_game_or_redistribute(self, first_pass: &[BidAnswer; 4], second_pass: &[
        TrumpAnswer; 4],
    ) -> (r: Result<PlayOrNext, BeloteErrorKind>)
        requires
            self.state.wf(),
            self.state.initial.number < u64::MAX,
        ensures
            forall|k: int|
                first_undeclined(first_pass@, k) && first_pass@[k] == BidAnswer::Cancel ==> r
                    == Ok::<PlayOrNext, BeloteErrorKind>(PlayOrNext::Interrupted),
            forall|k: int|
                first_undeclined(first_pass@, k) && first_pass@[k] == BidAnswer::Take ==> (r
                    matches Ok(PlayOrNext::PlayGame(g)) && self.spec_play_outcome(
                    g,
                    k,
                    self.state.card_returned.color,
                )),
            all_declined(first_pass@) ==> {
                &&& forall|k: int|
                    first_unpassed(second_pass@, k) && second_pass@[k] == TrumpAnswer::Cancel
                        ==> r == Ok::<PlayOrNext, BeloteErrorKind>(PlayOrNext::Interrupted)
                &&& forall|k: int, c: Color|
                    first_unpassed(second_pass@, k) && second_pass@[k] == TrumpAnswer::Chosen(c)
                        ==> if c == self.state.card_returned.color {
                        r matches Err(BeloteErrorKind::InvalidColor(_))
                    } else {
                        r matches Ok(PlayOrNext::PlayGame(g)) && self.spec_play_outcome(
                            g,
                            k,
                            c,
                        )
                    }
                &&& all_passed(second_pass@) ==> (r matches Ok(PlayOrNext::NextGame(g))
                    && self.spec_redeal_outcome(g))
            },
            r is Err ==> all_declined(first_pass@) && exists|k: int|
                first_unpassed(second_pass@, k) && second_pass@[k] == TrumpAnswer::Chosen(
                    self.state.card_returned.color,
                ),
    {
        let Game { players, points, state } = self;
        let mut bidding = state;
        let ghost input = bidding;
        let i = first_non_decline(first_pass);
        if i < 4 {
            if matches!(first_pass[i], BidAnswer::Cancel) {
                return Ok(PlayOrNext::Interrupted);
            }
            let taker = bidding.initial.order.get(i);
            let trump_color = bidding.card_returned.color();
            let playing = complete_all_hands(bidding, taker, i, trump_color)?;
            return Ok(PlayOrNext::PlayGame(Game::new(players, points, playing)));
        }
        let i = first_non_pass(second_pass);
        if i < 4 {
            if matches!(second_pass[i], TrumpAnswer::Cancel) {
                return Ok(PlayOrNext::Interrupted);
            }
            let chosen = match second_pass[i] {
                TrumpAnswer::Chosen(c) => c,
                _ => {
                    proof {
                        assert(false);
                    }
                    Color::Heart
                },
            };
            if chosen == bidding.card_returned.color() {
                return Err(BeloteErrorKind::InvalidColor(
                    "the returned card's color cannot be named in the second pass".to_owned(),
                ));
            }
            let taker = bidding.initial.order.get(i);
            let playing = complete_all_hands(bidding, taker, i, chosen)?;
            return Ok(PlayOrNext::PlayGame(Game::new(players, points, playing)));
        }
        // universal pass: the cards go back and the next round is seeded
        let Bidding { card_returned, hands, initial } = bidding;
        let ghost full = crate::stack::full_deck().to_multiset();
        let mut initial = initial;
        let rc = initial.stack.append_card(card_returned);
        proof {
            broadcast use vstd::multiset::group_multiset_axioms;

            assert(rc.is_ok());
            hands.lemma_suffix_multiset_full(initial.order);
            assert(initial.stack.cards@.to_multiset().add(
                hands.spec_suffix_multiset(initial.order, 0),
            ) =~= input.hands.spec_multiset().insert(input.card_returned).add(
                input.initial.stack.cards@.to_multiset(),
            ));
        }
        let mut s: usize = 0;
        while s < 4
            invariant
                s <= 4,
                initial.order.wf(),
                initial.order == input.initial.order,
                initial.number == input.initial.number,
                initial.litige == input.initial.litige,
                initial.stack.cards@.len() == 12 + 5 * s,
                initial.stack.cards@.to_multiset().add(
                    hands.spec_suffix_multiset(initial.order, s as int),
                ) == full,
                forall|t: int|
                    s <= t < 4 ==> #[trigger] hands.spec_cards(initial.order.seats[t]).len() == 5,
            decreases 4 - s,
        {
            let position = initial.order.get(s);
            proof {
                assert(hands.spec_suffix_multiset(initial.order, s as int)
                    == hands.spec_cards(position).to_multiset().add(
                    hands.spec_suffix_multiset(initial.order, s + 1),
                ));
                assert(hands.spec_cards(position).skip(0) =~= hands.spec_cards(position));
            }
            let mut j: usize = 0;
            while j < 5
                invariant
                    j <= 5,
                    s < 4,
                    initial.order.wf(),
                    initial.order == input.initial.order,
                    initial.number == input.initial.number,
                    initial.litige == input.initial.litige,
                    position == initial.order.seats[s as int],
                    initial.stack.cards@.len() == 12 + 5 * s + j,
                    hands.spec_cards(position).len() == 5,
                    initial.stack.cards@.to_multiset().add(
                        hands.spec_cards(position).skip(j as int).to_multiset(),
                    ).add(hands.spec_suffix_multiset(initial.order, s + 1)) == full,
                    forall|t: int|
                        s < t < 4 ==> #[trigger] hands.spec_cards(initial.order.seats[t]).len()
                            == 5,
                decreases 5 - j,
            {
                let ghost stack_ms = initial.stack.cards@.to_multiset();
                let ghost rest = hands.spec_cards(position).skip(j as int);
                let card = hands.hand(position).cards[j];
                let rc2 = initial.stack.append_card(card);
                proof {
                    broadcast use vstd::multiset::group_multiset_axioms;
                    broadcast use vstd::seq_lib::group_to_multiset_ensures;

                    assert(rc2.is_ok());
                    assert(rest[0] == card);
                    assert(rest.contains(card));
                    assert(rest.remove(0) =~= hands.spec_cards(position).skip(j + 1));
                    vstd::seq_lib::to_multiset_remove(rest, 0);
                    crate::hands::lemma_transfer_under(
                        stack_ms,
                        rest.to_multiset(),
                        hands.spec_suffix_multiset(initial.order, s + 1),
                        card,
                    );
                }
                j = j + 1;
            }
            proof {
                broadcast use vstd::multiset::group_multiset_axioms;
                broadcast use vstd::seq_lib::group_to_multiset_ensures;

                assert(hands.spec_cards(position).skip(5).to_multiset().len() == 0);
                assert(initial.stack.cards@.to_multiset().add(
                    hands.spec_suffix_multiset(initial.order, s + 1),
                ) =~= initial.stack.cards@.to_multiset().add(
                    hands.spec_cards(position).skip(5).to_multiset(),
                ).add(hands.spec_suffix_multiset(initial.order, s + 1)));
            }
            s = s + 1;
        }
        proof {
            broadcast use vstd::multiset::group_multiset_axioms;

            assert(initial.stack.cards@.to_multiset() =~= initial.stack.cards@.to_multiset().add(
                hands.spec_suffix_multiset(initial.order, 4),
            ));
        }
        let next = initial.next();
        Ok(PlayOrNext::NextGame(Game::new(players, points, next)))
    }

    /// What holds of the playing state a decided auction produces: the
    /// taker at index `k` of the order plays at `trump`, holds the returned
    /// card, and every hand is completed with exactly the dealt stack
    /// cards, in order.
    pub open spec fn spec_play_outcome(self, g: Game<Playing>, k: int, trump: Color) -> bool {
        let ord = self.state.initial.order;
        let taker = ord.seats[k];
        let st = self.state.initial.stack.cards@;
        &&& g.players == self.players
        &&& g.points == self.points
        &&& g.state.taker == taker
        &&& g.state.trump_color == trump
        &&& g.state.initial.order == ord
        &&& g.state.initial.number == self.state.initial.number
        &&& g.state.initial.litige == self.state.initial.litige
        &&& forall|s: int|
            #![auto]
            0 <= s < 4 ==> g.state.hands.spec_cards(ord.seats[s]) == self.state.hands.spec_cards(
                ord.seats[s],
            ) + (if s == k {
                seq![self.state.card_returned]
            } else {
                Seq::<Card>::empty()
            }) + spec_completion(st, k, s)
        &&& g.state.hands.spec_cards(taker).contains(self.state.card_returned)
        &&& g.state.wf()
    }

    /// What holds of the next round a universal pass produces: the dealer
    /// rotated, the round number advanced, the full stack back together, and
    /// no team total changed.
    pub open spec fn spec_redeal_outcome(self, g: Game<Initial>) -> bool {
        &&& g.players == self.players
        &&& g.points == self.points
        &&& g.state.order == self.state.initial.order.spec_rotate()
        &&& g.state.number == self.state.initial.number + 1
        &&& g.state.litige == self.state.initial.litige
        &&& g.state.wf()
    }
}

/// The index of the first answer that is not a decline, or four.
fn first_non_decline(answers: &[BidAnswer; 4]) -> (r: usize)
    ensures
        r <= 4,
        forall|j: int| 0 <= j < r ==> answers@[j] == BidAnswer::Decline,
        r < 4 ==> answers@[r as int] != BidAnswer::Decline,
        r == 4 ==> all_declined(answers@),
{
    let mut i: usize = 0;
    while i < 4
        invariant
            i <= 4,
            forall|j: int| 0 <= j < i ==> answers@[j] == BidAnswer::Decline,
        decreases 4 - i,
    {
        if !matches!(answers[i], BidAnswer::Decline) {
            return i;
        }
        i = i + 1;
    }
    i
}

/// The index of the first answer that is not a pass, or four.
fn first_non_pass(answers: &[TrumpAnswer; 4]) -> (r: usize)
    ensures
        r <= 4,
        forall|j: int| 0 <= j < r ==> answers@[j] == TrumpAnswer::Pass,
        r < 4 ==> answers@[r as int] != TrumpAnswer::Pass,
        r == 4 ==> all_passed(answers@),
{
    let mut i: usize = 0;
    while i < 4
        invariant
            i <= 4,
            forall|j: int| 0 <= j < i ==> answers@[j] == TrumpAnswer::Pass,
        decreases 4 - i,
    {
        if !matches!(answers[i], TrumpAnswer::Pass) {
            return i;
        }
        i = i + 1;
    }
    i
}

/// Hand the returned card to the taker, then two more cards to the taker
/// and three to every other seat, exhausting the stack.
fn complete_all_hands(bidding: Bidding, taker: Position, taker_index: usize, trump_color: Color)
    -> (r: Result<Playing, BeloteErrorKind>)
    requires
        bidding.wf(),
        taker_index < 4,
        bidding.initial.order.seats[taker_index as int] == taker,
    ensures
        r matches Ok(playing) ==> {
            &&& playing.taker == taker
            &&& playing.trump_color == trump_color
            &&& playing.initial.order == bidding.initial.order
            &&& playing.initial.number == bidding.initial.number
            &&& playing.initial.litige == bidding.initial.litige
            &&& forall|s: int|
                #![auto]
                0 <= s < 4 ==> playing.hands.spec_cards(bidding.initial.order.seats[s])
                    == bidding.hands.spec_cards(bidding.initial.order.seats[s]) + (
                if s == taker_index {
                    seq![bidding.card_returned]
                } else {
                    Seq::<Card>::empty()
                }) + spec_completion(bidding.initial.stack.cards@, taker_index as int, s)
            &&& playing.hands.spec_cards(taker).contains(bidding.card_returned)
            &&& playing.wf()
        },
        r.is_ok(),
{
    let ghost input = bidding;
    let ghost k = taker_index as int;
    let ghost ord = bidding.initial.order;
    let ghost st = bidding.initial.stack.cards@;
    let mut bidding = bidding;
    let returned = bidding.card_returned;
    let rc = bidding.hands.take_card(taker, returned);
    proof {
        assert(rc.is_ok());
        assert(bidding.hands.spec_multiset() == input.hands.spec_multiset().insert(
            input.card_returned,
        ));
        assert(bidding.hands.spec_cards(taker)[5] == input.card_returned);
        assert(bidding.hands.spec_cards(taker) =~= input.hands.spec_cards(taker) + seq![
            input.card_returned,
        ]);
        assert forall|t: int| 0 <= t < 4 && t != k implies #[trigger] bidding.hands.spec_cards(
            ord.seats[t],
        ) == input.hands.spec_cards(ord.seats[t]) + Seq::<Card>::empty() by {
            assert(ord.seats[t] != ord.seats[k]);
            assert(bidding.hands.spec_cards(ord.seats[t]) =~= input.hands.spec_cards(ord.seats[t])
                + Seq::<Card>::empty());
        }
    }
    let mut s: usize = 0;
    while s < 4
        invariant
            s <= 4,
            ord.wf(),
            0 <= k < 4,
            ord.seats[k] == taker,
            st.len() == 11,
            bidding.initial.order == ord,
            bidding.initial.number == input.initial.number,
            bidding.initial.litige == input.initial.litige,
            bidding.card_returned == input.card_returned,
            bidding.hands.spec_multiset().add(bidding.initial.stack.cards@.to_multiset())
                == input.hands.spec_multiset().insert(input.card_returned).add(st.to_multiset()),
            bidding.initial.stack.cards@ == st.take(11 - spec_pops_before(k, s as int)),
            forall|t: int|
                #![auto]
                0 <= t < s ==> bidding.hands.spec_cards(ord.seats[t]) == input.hands.spec_cards(
                    ord.seats[t],
                ) + (if t == k {
                    seq![input.card_returned]
                } else {
                    Seq::<Card>::empty()
                }) + spec_completion(st, k, t),
            forall|t: int|
                #![auto]
                s <= t < 4 ==> bidding.hands.spec_cards(ord.seats[t]) == input.hands.spec_cards(
                    ord.seats[t],
                ) + (if t == k {
                    seq![input.card_returned]
                } else {
                    Seq::<Card>::empty()
                }),
            forall|t: int|
                0 <= t < 4 ==> (#[trigger] input.hands.spec_cards(ord.seats[t])).len() == 5,
            bidding.hands.spec_cards(taker).len() >= 6,
            bidding.hands.spec_cards(taker)[5] == input.card_returned,
        decreases 4 - s,
    {
        let position = bidding.initial.order.get(s);
        let ghost before = bidding.hands.spec_cards(ord.seats[s as int]);
        if s == taker_index {
            bidding.complete_hand(position, 2)?;
        } else {
            proof {
                assert(ord.seats[s as int] != ord.seats[k]);
            }
            bidding.complete_hand(position, 3)?;
        }
        proof {
            let seat = ord.seats[s as int];
            let pops = spec_pops_before(k, s as int);
            let cnt: int = if s as int == k {
                2
            } else {
                3
            };
            let cur = st.take(11 - pops);
            assert(forall|i: int| 0 <= i < 11 - pops ==> #[trigger] cur[i] == st[i]);
            assert forall|j: int| 0 <= j < cnt implies #[trigger] bidding.hands.spec_cards(
                seat,
            )[before.len() + j] == st[10 - pops - j] by {
                assert(bidding.hands.spec_cards(seat)[before.len() + j] == cur[cur.len() - 1 - j]);
            }
            let comp = spec_completion(st, k, s as int);
            assert(comp.len() == cnt);
            assert(comp[0] == st[10 - pops] && comp[1] == st[10 - pops - 1]);
            if cnt == 3 {
                assert(comp[2] == st[10 - pops - 2]);
            }
            assert(bidding.hands.spec_cards(seat).len() == before.len() + cnt);
            assert(forall|j: int|
                0 <= j < before.len() ==> #[trigger] bidding.hands.spec_cards(seat)[j]
                    == before[j]);
            assert forall|i: int|
                before.len() <= i < before.len() + cnt implies #[trigger] bidding.hands.spec_cards(
                seat,
            )[i] == st[10 - pops - (i - before.len())] by {
                let j = i - before.len();
                assert(bidding.hands.spec_cards(seat)[before.len() + j] == st[10 - pops - j]);
            }
            assert(bidding.hands.spec_cards(seat) =~= before + comp);
            assert(bidding.initial.stack.cards@ =~= st.take(
                11 - spec_pops_before(k, s + 1),
            ));
        }
        s = s + 1;
    }
    proof {
        broadcast use vstd::multiset::group_multiset_axioms;
        broadcast use vstd::seq_lib::group_to_multiset_ensures;

        assert(bidding.initial.stack.cards@.to_multiset().len() == 0);
        assert(bidding.hands.spec_multiset().add(bidding.initial.stack.cards@.to_multiset())
            =~= bidding.hands.spec_multiset());
        ord.lemma_wf_covers();
        assert forall|p: Position| (#[trigger] bidding.hands.spec_cards(p)).len() == 8 by {
            assert(ord.has_seat(p));
            let i = choose|i: int| 0 <= i <= 3 && ord.seats[i] == p;
            assert(bidding.hands.spec_cards(ord.seats[i]) == input.hands.spec_cards(ord.seats[i])
                + (if i == k {
                seq![input.card_returned]
            } else {
                Seq::<Card>::empty()
            }) + spec_completion(st, k, i));
            assert(spec_completion(st, k, i).len() == (if i == k {
                2int
            } else {
                3int
            }));
        }
        assert(bidding.hands.spec_cards(taker).len() == 8);
        assert(bidding.hands.spec_cards(taker)[5] == input.card_returned);
        assert(bidding.hands.spec_cards(taker).contains(input.card_returned));
    }
    let Bidding { card_returned, hands, initial } = bidding;
    Ok(Playing::new(taker, hands, trump_color, initial))
}

} // verus!
