//! The playing state: a taker, a trump color and eight cards per seat,
//! about to run eight tricks.

use vstd::prelude::*;

use crate::card::{Card, Color};
use crate::errors::BeloteErrorKind;
use crate::game::Game;
use crate::hand::Hand;
use crate::hands::Hands;
use crate::initial::Initial;
use crate::points::spec_sat_add;
use crate::position::Position;
use crate::team::Team;
use crate::turn::Turn;

verus! {

#[derive(Debug)]
pub struct Playing {
    pub taker: Position,
    pub hands: Hands,
    pub trump_color: Color,
    pub initial: Initial,
}

pub enum NextGameOrInterrupt {
    NextGame(Game<Initial>),
    Interrupted,
}

impl Playing {
    /// Eight cards per seat and an empty stack: the hands hold the 32
    /// cards of the deck, each exactly once.
    pub open spec fn wf(self) -> bool {
        &&& self.initial.order.wf()
        &&& self.initial.stack.cards@.len() == 0
        &&& forall|p: Position| (#[trigger] self.hands.spec_cards(p)).len() == 8
        &&& self.hands.spec_multiset() == crate::stack::full_deck().to_multiset()
    }

    /// Card conservation before the first trick: the four hands hold all 32
    /// cards, each exactly once, and the stack none.
    pub proof fn lemma_card_conservation(self)
        requires
            self.wf(),
        ensures
            self.hands.spec_total() + self.initial.stack.cards@.len() == 32,
            self.hands.spec_multiset() == crate::stack::full_deck().to_multiset(),
    {
        assert(self.hands.spec_cards(Position::North).len() == 8);
        assert(self.hands.spec_cards(Position::East).len() == 8);
        assert(self.hands.spec_cards(Position::South).len() == 8);
        assert(self.hands.spec_cards(Position::West).len() == 8);
    }

    pub fn new(taker: Position, hands: Hands, trump_color: Color, initial: Initial) -> (r: Self)
        ensures
            r.taker == taker,
            r.hands == hands,
            r.trump_color == trump_color,
            r.initial == initial,
    {
        Self { taker, hands, trump_color, initial }
    }

    pub fn into(self) -> (r: Initial)
        ensures
            r == self.initial,
    {
        self.initial
    }

    pub fn hand(&self, position: Position) -> (r: &Hand)
        ensures
            *r == self.hands.spec_hand(position),
    {
        self.hands.hand(position)
    }

    pub fn add_litige(&mut self, litige: u64)
        ensures
            final(self).initial.litige == spec_sat_add(old(self).initial.litige, litige),
            final(self).initial.order == old(self).initial.order,
            final(self).initial.number == old(self).initial.number,
            final(self).initial.stack == old(self).initial.stack,
            final(self).taker == old(self).taker,
            final(self).hands == old(self).hands,
            final(self).trump_color == old(self).trump_color,
    {
        self.initial.add_litige(litige);
    }

    pub fn reset_litige(&mut self) -> (r: u64)
        ensures
            r == old(self).initial.litige,
            final(self).initial.litige == 0,
            final(self).initial.order == old(self).initial.order,
            final(self).initial.number == old(self).initial.number,
            final(self).initial.stack == old(self).initial.stack,
            final(self).taker == old(self).taker,
            final(self).hands == old(self).hands,
            final(self).trump_color == old(self).trump_color,
    {
        self.initial.reset_litige()
    }

    pub fn taker(&self) -> (r: Position)
        ensures
            r == self.taker,
    {
        self.taker
    }

    pub fn hands(&self) -> (r: &Hands)
        ensures
            *r == self.hands,
    {
        &self.hands
    }

    pub fn trump_color(&self) -> (r: Color)
        ensures
            r == self.trump_color,
    {
        self.trump_color
    }
}

/// Moving one card from the hands to the trick leaves the three piles'
/// combined multiset unchanged.
proof fn lemma_step_conservation(
    hands_pre: vstd::multiset::Multiset<Card>,
    trick_pre: vstd::multiset::Multiset<Card>,
    stack_ms: vstd::multiset::Multiset<Card>,
    hands_post: vstd::multiset::Multiset<Card>,
    trick_post: vstd::multiset::Multiset<Card>,
    card: Card,
)
    requires
        hands_pre.count(card) > 0,
        hands_post == hands_pre.remove(card),
        trick_post == trick_pre.insert(card),
    ensures
        hands_post.add(trick_post).add(stack_ms) == hands_pre.add(trick_pre).add(stack_ms),
{
    broadcast use vstd::multiset::group_multiset_axioms;

    assert(hands_post.add(trick_post).add(stack_ms) =~= hands_pre.add(trick_pre).add(stack_ms));
}

/// The seat that plays right before `p`.
pub open spec fn prev_seat(p: Position) -> Position {
    p.spec_next().spec_next().spec_next()
}

/// The filled trick slots are exactly the seats that already played this
/// trick: the `placed`-many seats walking backwards from `current`.
pub open spec fn trick_slots_ok(turn: Turn, current: Position) -> bool {
    let cnt = turn.spec_placed();
    &&& (turn.spec_card_of(current) is Some <==> cnt == 4)
    &&& (turn.spec_card_of(prev_seat(current)) is Some <==> cnt >= 1)
    &&& (turn.spec_card_of(prev_seat(prev_seat(current))) is Some <==> cnt >= 2)
    &&& (turn.spec_card_of(prev_seat(prev_seat(prev_seat(current)))) is Some <==> cnt >= 3)
}

/// The point total of a completed trick.
pub open spec fn spec_trick_points(turn: Turn, trump_color: Color) -> int {
    turn.north.unwrap().spec_points(trump_color) + turn.east.unwrap().spec_points(trump_color)
        + turn.south.unwrap().spec_points(trump_color) + turn.west.unwrap().spec_points(
        trump_color,
    )
}

/// A round in the middle of its eight tricks: the playing state plus the
/// current trick, the seat to play, and the attack and defense point
/// totals of the settled tricks.
pub struct RoundInPlay {
    pub game: Game<Playing>,
    pub belote_rebelote: Option<Team>,
    pub current_position: Position,
    pub turn: Turn,
    pub attack_points: u64,
    pub defense_points: u64,
}

impl RoundInPlay {
    /// All eight tricks are settled.
    pub open spec fn spec_done(self) -> bool {
        self.turn.number == 9
    }

    /// The running invariant of a round: trick numbers one to nine, the
    /// filled slots walking back from the seat to play, each hand holding
    /// exactly the cards it has not yet played, the stack holding the
    /// settled tricks, and the point totals within the cards played.
    pub open spec fn wf(self) -> bool {
        let n = self.turn.number as int;
        &&& self.game.state.initial.order.wf()
        &&& 1 <= n <= 9
        &&& (n == 9 ==> self.turn.spec_placed() == 0)
        &&& (n <= 8 ==> self.turn.spec_placed() <= 3)
        &&& trick_slots_ok(self.turn, self.current_position)
        &&& (self.turn.called_color is Some <==> self.turn.spec_placed() > 0)
        &&& (self.turn.spec_master_card() is Some <==> self.turn.spec_placed() > 0)
        &&& forall|p: Position|
            (#[trigger] self.game.state.hands.spec_cards(p)).len() == 9 - n - (
            if self.turn.spec_card_of(p) is Some {
                1int
            } else {
                0int
            })
        &&& self.game.state.initial.stack.cards@.len() == 4 * (n - 1)
        &&& self.attack_points + self.defense_points <= 80 * (n - 1)
        &&& self.game.state.hands.spec_multiset().add(self.turn.spec_multiset()).add(
            self.game.state.initial.stack.cards@.to_multiset(),
        ) == crate::stack::full_deck().to_multiset()
        &&& self.attack_points + self.defense_points == crate::card::spec_seq_points(
            self.game.state.initial.stack.cards@,
            self.game.state.trump_color,
        )
    }

    /// Card conservation: at every point of a round the four hands, the
    /// trick in progress and the settled stack hold 32 cards together —
    /// the full deck, each card exactly once.
    pub proof fn lemma_card_conservation(self)
        requires
            self.wf(),
        ensures
            self.game.state.hands.spec_total() + self.turn.spec_placed()
                + self.game.state.initial.stack.cards@.len() == 32,
            self.game.state.hands.spec_multiset().add(self.turn.spec_multiset()).add(
                self.game.state.initial.stack.cards@.to_multiset(),
            ) == crate::stack::full_deck().to_multiset(),
    {
        assert(self.game.state.hands.spec_cards(Position::North).len() == 9
            - self.turn.number as int - (if self.turn.spec_card_of(Position::North) is Some {
            1int
        } else {
            0int
        }));
        assert(self.game.state.hands.spec_cards(Position::East).len() == 9
            - self.turn.number as int - (if self.turn.spec_card_of(Position::East) is Some {
            1int
        } else {
            0int
        }));
        assert(self.game.state.hands.spec_cards(Position::South).len() == 9
            - self.turn.number as int - (if self.turn.spec_card_of(Position::South) is Some {
            1int
        } else {
            0int
        }));
        assert(self.game.state.hands.spec_cards(Position::West).len() == 9
            - self.turn.number as int - (if self.turn.spec_card_of(Position::West) is Some {
            1int
        } else {
            0int
        }));
    }

    pub fn done(&self) -> (r: bool)
        ensures
            r == self.spec_done(),
    {
        self.turn.number == 9
    }

    /// The legal moves of the seat about to play.
    pub fn current_choices(&self) -> (r: Result<Vec<Card>, BeloteErrorKind>)
        requires
            self.wf(),
            !self.spec_done(),
        ensures
            r.is_ok(),
            r matches Ok(cards) ==> {
                &&& cards@.len() > 0
                &&& forall|k: int|
                    0 <= k < cards@.len() ==> self.game.state.hands.spec_cards(
                        self.current_position,
                    ).contains(#[trigger] cards@[k])
            },
    {
        let position = self.current_position;
        proof {
            assert(self.turn.spec_card_of(position) is None);
            assert(self.game.state.hands.spec_cards(position).len() == 9
                - self.turn.number as int);
        }
        let player = *self.game.players.player(position);
        player.choices(
            self.game.state.hands.hand(position),
            &position,
            &self.turn,
            self.game.state.trump_color,
        )
    }

    /// Play `card` for the seat to play: the card leaves the hand and joins
    /// the trick. When it is the fourth card, the trick settles: its points
    /// go to the attack or the defense after the mastering team, its cards
    /// go to the stack, and the master leads the next trick.
    #[verifier::rlimit(100)]
    #[verifier::spinoff_prover]
    pub fn play_card(&mut self, card: &Card) -> (r: Result<(), BeloteErrorKind>)
        requires
            old(self).wf(),
            !old(self).spec_done(),
        ensures
            r.is_ok() <==> old(self).game.state.hands.spec_cards(
                old(self).current_position,
            ).contains(*card),
            r.is_err() ==> (forall|p: Position|
                #[trigger] final(self).game.state.hands.spec_cards(p) == old(self).game.state.hands.spec_cards(p))
                && final(self).turn == old(self).turn
                && final(self).current_position == old(self).current_position
                && final(self).attack_points == old(self).attack_points
                && final(self).defense_points == old(self).defense_points,
            r.is_ok() ==> {
                let position = old(self).current_position;
                let trump_color = old(self).game.state.trump_color;
                let ct = old(self).turn.spec_after_put(position, *card, trump_color);
                &&& final(self).wf()
                &&& exists|i: int|
                    0 <= i < old(self).game.state.hands.spec_cards(position).len() && old(self).game.state.hands.spec_cards(position)[i] == *card && final(self).game.state.hands.spec_cards(position) == old(self).game.state.hands.spec_cards(
                        position,
                    ).remove(i)
                &&& forall|p: Position|
                    p != position ==> #[trigger] final(self).game.state.hands.spec_cards(p) == old(self).game.state.hands.spec_cards(p)
                &&& final(self).game.players == old(self).game.players
                &&& final(self).game.points == old(self).game.points
                &&& final(self).game.state.taker == old(self).game.state.taker
                &&& final(self).game.state.trump_color == old(self).game.state.trump_color
                &&& final(self).game.state.initial.order == old(self).game.state.initial.order
                &&& final(self).game.state.initial.number == old(self).game.state.initial.number
                &&& final(self).game.state.initial.litige == old(self).game.state.initial.litige
                &&& final(self).belote_rebelote == old(self).belote_rebelote
                &&& (old(self).turn.spec_placed() < 3 ==> {
                    &&& final(self).turn == ct
                    &&& final(self).current_position == position.spec_next()
                    &&& final(self).attack_points == old(self).attack_points
                    &&& final(self).defense_points == old(self).defense_points
                    &&& final(self).game.state.initial.stack.cards@ == old(self).game.state.initial.stack.cards@
                })
                &&& (old(self).turn.spec_placed() == 3 ==> {
                    &&& ct.spec_finished()
                    &&& final(self).current_position == ct.master_position
                    &&& final(self).turn.number == old(self).turn.number + 1
                    &&& final(self).turn.spec_placed() == 0
                    &&& final(self).game.state.initial.stack.cards@ == old(self).game.state.initial.stack.cards@ + seq![
                        ct.north.unwrap(),
                        ct.east.unwrap(),
                        ct.south.unwrap(),
                        ct.west.unwrap(),
                    ]
                    &&& (ct.master_position.spec_team() == old(self).game.state.taker.spec_team() ==> final(self).attack_points == old(self).attack_points + spec_trick_points(ct, trump_color) && final(self).defense_points == old(self).defense_points)
                    &&& (ct.master_position.spec_team() != old(self).game.state.taker.spec_team() ==> final(self).defense_points == old(self).defense_points + spec_trick_points(ct, trump_color) && final(self).attack_points == old(self).attack_points)
                })
            },
    {
        let position = self.current_position;
        let trump_color = self.game.state.trump_color;
        match self.game.state.hands.give_card(position, card) {
            None => {
                return Err(BeloteErrorKind::InvalidCase("cannot give chosen card".to_owned()));
            },
            Some(_) => {},
        }
        let ok = self.turn.put(trump_color, position, card);
        if !ok {
            proof {
                assert(false);
            }
            return Err(BeloteErrorKind::InvalidCase("cannot put card".to_owned()));
        }
        proof {
            old(self).turn.lemma_put_multiset(position, *card, trump_color);
            lemma_step_conservation(
                old(self).game.state.hands.spec_multiset(),
                old(self).turn.spec_multiset(),
                old(self).game.state.initial.stack.cards@.to_multiset(),
                self.game.state.hands.spec_multiset(),
                self.turn.spec_multiset(),
                *card,
            );
        }
        if self.turn.finished() {
            proof {
                assert(old(self).turn.spec_placed() == 3);
            }
            self.settle()?;
        } else {
            self.current_position = position.next();
        }
        Ok(())
    }

    /// Settle the completed trick: attribute its points, move its cards to
    /// the stack, let the master lead the next trick.
    fn settle(&mut self) -> (r: Result<(), BeloteErrorKind>)
        requires
            old(self).turn.spec_finished(),
            1 <= old(self).turn.number <= 8,
            old(self).game.state.initial.order.wf(),
            old(self).game.state.initial.stack.cards@.len() == 4 * (old(self).turn.number - 1),
            old(self).attack_points + old(self).defense_points <= 80 * (old(self).turn.number
                - 1),
            forall|p: Position|
                (#[trigger] old(self).game.state.hands.spec_cards(p)).len() == 8 - old(
                    self,
                ).turn.number,
            old(self).game.state.hands.spec_multiset().add(old(self).turn.spec_multiset()).add(
                old(self).game.state.initial.stack.cards@.to_multiset(),
            ) == crate::stack::full_deck().to_multiset(),
            old(self).attack_points + old(self).defense_points == crate::card::spec_seq_points(
                old(self).game.state.initial.stack.cards@,
                old(self).game.state.trump_color,
            ),
        ensures
            r.is_ok(),
            final(self).wf(),
            final(self).turn.number == old(self).turn.number + 1,
            final(self).turn.spec_placed() == 0,
            final(self).current_position == old(self).turn.master_position,
            final(self).game.state.initial.stack.cards@ == old(
                self,
            ).game.state.initial.stack.cards@ + seq![
                old(self).turn.north.unwrap(),
                old(self).turn.east.unwrap(),
                old(self).turn.south.unwrap(),
                old(self).turn.west.unwrap(),
            ],
            final(self).game.state.hands == old(self).game.state.hands,
            final(self).game.players == old(self).game.players,
            final(self).game.points == old(self).game.points,
            final(self).game.state.taker == old(self).game.state.taker,
            final(self).game.state.trump_color == old(self).game.state.trump_color,
            final(self).game.state.initial.order == old(self).game.state.initial.order,
            final(self).game.state.initial.number == old(self).game.state.initial.number,
            final(self).game.state.initial.litige == old(self).game.state.initial.litige,
            final(self).belote_rebelote == old(self).belote_rebelote,
            (old(self).turn.master_position.spec_team() == old(self).game.state.taker.spec_team()
                ==> final(self).attack_points == old(self).attack_points + spec_trick_points(
                old(self).turn,
                old(self).game.state.trump_color,
            ) && final(self).defense_points == old(self).defense_points),
            (old(self).turn.master_position.spec_team() != old(self).game.state.taker.spec_team()
                ==> final(self).defense_points == old(self).defense_points + spec_trick_points(
                old(self).turn,
                old(self).game.state.trump_color,
            ) && final(self).attack_points == old(self).attack_points),
    {
        let trump_color = self.game.state.trump_color;
        let master_position = self.turn.master_position();
        self.current_position = master_position;
        let master_team = self.turn.master_team();
        let taker_team = self.game.state.taker.team();
        let cards = match self.turn.take() {
            Some(cards) => cards,
            None => {
                proof {
                    assert(false);
                }
                return Err(BeloteErrorKind::InvalidCase("cannot take turn cards".to_owned()));
            },
        };
        proof {
            crate::card::lemma_points_bounded(cards[0], trump_color);
            crate::card::lemma_points_bounded(cards[1], trump_color);
            crate::card::lemma_points_bounded(cards[2], trump_color);
            crate::card::lemma_points_bounded(cards[3], trump_color);
        }
        let trick_points = cards[0].points(trump_color) + cards[1].points(trump_color) + cards[2]
            .points(trump_color) + cards[3].points(trump_color);
        if taker_team == master_team {
            self.attack_points = self.attack_points + trick_points;
        } else {
            self.defense_points = self.defense_points + trick_points;
        }
        let rc0 = self.game.state.initial.stack.append_card(cards[0]);
        let rc1 = self.game.state.initial.stack.append_card(cards[1]);
        let rc2 = self.game.state.initial.stack.append_card(cards[2]);
        let rc3 = self.game.state.initial.stack.append_card(cards[3]);
        proof {
            assert(rc0.is_ok() && rc1.is_ok() && rc2.is_ok() && rc3.is_ok());
            assert(self.game.state.initial.stack.cards@ =~= old(
                self,
            ).game.state.initial.stack.cards@ + seq![
                old(self).turn.north.unwrap(),
                old(self).turn.east.unwrap(),
                old(self).turn.south.unwrap(),
                old(self).turn.west.unwrap(),
            ]);
        }
        let number = self.turn.number();
        if self.game.state.initial.stack.len() as u64 != 4 * number {
            proof {
                assert(false);
            }
            return Err(BeloteErrorKind::InvalidCase("bad deck length".to_owned()));
        }
        self.turn = Turn::new(number + 1, self.game.state.initial.order);
        proof {
            broadcast use vstd::multiset::group_multiset_axioms;

            self.turn.lemma_empty_multiset();
            let trump = self.game.state.trump_color;
            let st0 = old(self).game.state.initial.stack.cards@;
            crate::card::lemma_seq_points_push(st0, cards[0], trump);
            crate::card::lemma_seq_points_push(st0.push(cards[0]), cards[1], trump);
            crate::card::lemma_seq_points_push(st0.push(cards[0]).push(cards[1]), cards[2], trump);
            crate::card::lemma_seq_points_push(
                st0.push(cards[0]).push(cards[1]).push(cards[2]),
                cards[3],
                trump,
            );
            assert(self.game.state.hands.spec_multiset().add(self.turn.spec_multiset()).add(
                self.game.state.initial.stack.cards@.to_multiset(),
            ) =~= old(self).game.state.hands.spec_multiset().add(
                old(self).turn.spec_multiset(),
            ).add(st0.to_multiset()));
        }
        Ok(())
    }

    /// Score the finished round and seed the next one: the +10 end-game
    /// bonus if the taker's team won the last trick, the settlement of
    /// `score_round` over the litige pool, the flat +20 belote-rebelote
    /// bonus, then the dealer rotation.
    pub fn finish(self) -> (r: Result<Game<Initial>, BeloteErrorKind>)
        requires
            self.wf(),
            self.spec_done(),
            self.game.state.initial.number < u64::MAX,
        ensures
            ({
                let bonus: u64 = if self.current_position.spec_team()
                    == self.game.state.taker.spec_team() {
                    10u64
                } else {
                    0u64
                };
                let attack_total = (self.attack_points + bonus) as u64;
                let belote = self.belote_rebelote is Some;
                let sc = crate::points::spec_score_round(
                    attack_total,
                    belote,
                    self.game.state.initial.litige,
                );
                &&& r.is_ok()
                &&& (r.is_ok() <==> sc is Some)
                &&& (r matches Ok(g) ==> sc matches Some(t) && {
                    let taker_team = self.game.state.taker.spec_team();
                    let after_belote = match self.belote_rebelote {
                        Some(team) => self.game.points.spec_add(team, 20),
                        None => self.game.points,
                    };
                    &&& g.players == self.game.players
                    &&& g.points == after_belote.spec_add(taker_team, t.0).spec_add(
                        taker_team.spec_other(),
                        t.1,
                    )
                    &&& g.state.order == self.game.state.initial.order.spec_rotate()
                    &&& g.state.number == self.game.state.initial.number + 1
                    &&& g.state.litige == t.2
                    &&& g.state.wf()
                })
            }),
    {
        proof {
            broadcast use vstd::multiset::group_multiset_axioms;

            // every card has come back to the stack, so the trick points of
            // the whole round add up to the deck's 152
            assert(forall|p: Position|
                (#[trigger] self.game.state.hands.spec_cards(p)).len() == 0);
            self.game.state.hands.lemma_empty_multiset();
            self.turn.lemma_empty_multiset();
            assert(self.game.state.initial.stack.cards@.to_multiset()
                =~= crate::stack::full_deck().to_multiset());
            crate::card::lemma_seq_points_permutation(
                self.game.state.initial.stack.cards@,
                crate::stack::full_deck(),
                self.game.state.trump_color,
            );
            crate::card::lemma_full_deck_points(self.game.state.trump_color);
            assert(self.attack_points + self.defense_points == 152);
        }
        let RoundInPlay { game, belote_rebelote, current_position, turn: _, attack_points, defense_points: _ } =
            self;
        let mut game = game;
        let mut attack_points = attack_points;
        if current_position.team() == game.state.taker.team() {
            attack_points = attack_points + 10;
        }
        let pending_litige = game.state.reset_litige();
        let (attack_score, defense_score, new_litige) = match crate::points::score_round(
            attack_points,
            belote_rebelote.is_some(),
            pending_litige,
        ) {
            Ok(t) => t,
            Err(e) => {
                return Err(e);
            },
        };
        if let Some(belote_team) = belote_rebelote {
            game.add_points(belote_team, 20);
        }
        let taker_team = game.state.taker.team();
        game.add_points(taker_team, attack_score);
        game.add_points(taker_team.other(), defense_score);
        let Game { players, points, state } = game;
        let mut initial = state.into();
        initial.add_litige(new_litige);
        let next = initial.next();
        Ok(Game::new(players, points, next))
    }
}

impl Game<Playing> {
    /// Start the trick phase: detect belote-rebelote, let the first seat of
    /// the order lead the first trick.
    pub fn start_play(self) -> (r: RoundInPlay)
        requires
            self.state.wf(),
        ensures
            r.wf(),
            r.game.players == self.players,
            r.game.points == self.points,
            r.game.state == self.state,
            r.turn.number == 1,
            r.turn.spec_placed() == 0,
            r.current_position == self.state.initial.order.seats[0],
            r.attack_points == 0,
            r.defense_points == 0,
            (r.belote_rebelote is Some <==> exists|p: Position|
                (#[trigger] self.state.hands.spec_hand(p)).spec_belote_rebelote(
                    self.state.trump_color,
                )),
            (r.belote_rebelote matches Some(team) ==> exists|p: Position|
                (#[trigger] self.state.hands.spec_hand(p)).spec_belote_rebelote(
                    self.state.trump_color,
                ) && p.spec_team() == team),
    {
        let order = self.state.initial.order;
        let trump_color = self.state.trump_color;
        let mut belote_rebelote: Option<Team> = None;
        let mut s: usize = 0;
        while s < 4
            invariant
                s <= 4,
                order == self.state.initial.order,
                trump_color == self.state.trump_color,
                (belote_rebelote is Some <==> exists|t: int|
                    0 <= t < s && (#[trigger] self.state.hands.spec_hand(
                        order.seats[t],
                    )).spec_belote_rebelote(trump_color)),
                (belote_rebelote matches Some(team) ==> exists|t: int|
                    0 <= t < s && (#[trigger] self.state.hands.spec_hand(
                        order.seats[t],
                    )).spec_belote_rebelote(trump_color) && order.seats[t].spec_team() == team),
            decreases 4 - s,
        {
            let position = order.get(s);
            if self.state.hands.hand(position).belote_rebelote(trump_color) {
                belote_rebelote = Some(position.team());
                proof {
                    assert(self.state.hands.spec_hand(order.seats[s as int]).spec_belote_rebelote(
                        trump_color,
                    ));
                }
            }
            s = s + 1;
        }
        proof {
            if exists|p: Position|
                (#[trigger] self.state.hands.spec_hand(p)).spec_belote_rebelote(trump_color) {
                let p = choose|p: Position|
                    (#[trigger] self.state.hands.spec_hand(p)).spec_belote_rebelote(trump_color);
                self.state.initial.order.lemma_wf_covers();
                assert(order.has_seat(p));
                let i = choose|i: int| 0 <= i <= 3 && order.seats[i] == p;
                assert(self.state.hands.spec_hand(order.seats[i]).spec_belote_rebelote(
                    trump_color,
                ));
            }
        }
        let current_position = order.first();
        let turn = Turn::new(1, order);
        proof {
            broadcast use vstd::multiset::group_multiset_axioms;
            broadcast use vstd::seq_lib::group_to_multiset_ensures;

            turn.lemma_empty_multiset();
            assert forall|c: Card|
                self.state.initial.stack.cards@.to_multiset().count(c) == 0 by {
                if self.state.initial.stack.cards@.to_multiset().count(c) > 0 {
                    assert(self.state.initial.stack.cards@.contains(c));
                }
            }
            assert(self.state.hands.spec_multiset().add(turn.spec_multiset()).add(
                self.state.initial.stack.cards@.to_multiset(),
            ) =~= self.state.hands.spec_multiset());
        }
        RoundInPlay {
            game: self,
            belote_rebelote,
            current_position,
            turn,
            attack_points: 0,
            defense_points: 0,
        }
    }

    /// What a played round hands back: the next round, dealer rotated, its
    /// totals settled by `spec_round_settled` on some attack total and
    /// belote-rebelote holder the play produced.
    pub open spec fn spec_round_outcome(self, g: Game<Initial>) -> bool {
        &&& g.players == self.players
        &&& g.state.order == self.state.initial.order.spec_rotate()
        &&& g.state.number == self.state.initial.number + 1
        &&& g.state.wf()
        &&& exists|attack_total: u64, belote_team: Option<Team>|
            attack_total <= 162 && #[trigger] crate::points::spec_round_settled(
                self.points,
                self.state.initial.litige,
                self.state.taker.spec_team(),
                attack_total,
                belote_team,
                g.points,
                g.state.litige,
            )
    }

    /// Play a whole round with every card drawn at random from the legal
    /// moves, as the bulk simulation mode does, and score it. A randomized
    /// round never interrupts and always scores: the result is the next
    /// round, its totals settled by `spec_score_round` on some attack total
    /// the draws produced.
    pub fn play(self) -> (r: Result<NextGameOrInterrupt, BeloteErrorKind>)
        requires
            self.state.wf(),
            self.players.spec_full_random(),
            self.state.initial.number < u64::MAX,
        ensures
            r matches Ok(NextGameOrInterrupt::NextGame(g)),
            r matches Ok(NextGameOrInterrupt::NextGame(g)) ==> self.spec_round_outcome(g),
    {
        let ghost players = self.players;
        let ghost points0 = self.points;
        let ghost order0 = self.state.initial.order;
        let ghost number0 = self.state.initial.number;
        let ghost litige0 = self.state.initial.litige;
        let ghost taker0 = self.state.taker;
        let mut round = self.start_play();
        while !round.done()
            invariant
                round.wf(),
                round.game.players == players,
                round.game.points == points0,
                round.game.state.taker == taker0,
                round.game.state.initial.order == order0,
                round.game.state.initial.number == number0,
                round.game.state.initial.litige == litige0,
                number0 < u64::MAX,
            decreases 36 - 4 * round.turn.number - round.turn.spec_placed(),
        {
            let choices = match round.current_choices() {
                Ok(choices) => choices,
                Err(e) => {
                    proof {
                        assert(false);
                    }
                    return Err(e);
                },
            };
            if choices.len() == 0 {
                proof {
                    assert(false);
                }
                return Err(BeloteErrorKind::InvalidCase("no choices available".to_owned()));
            }
            let index = crate::rng::random_below(choices.len());
            let card = choices[index];
            match round.play_card(&card) {
                Ok(()) => {},
                Err(e) => {
                    proof {
                        assert(round.game.state.hands.spec_cards(round.current_position).contains(
                            card,
                        ));
                        assert(false);
                    }
                    return Err(e);
                },
            }
        }
        let ghost fin = round;
        match round.finish() {
            Ok(g) => {
                proof {
                    broadcast use vstd::multiset::group_multiset_axioms;

                    // replay the settlement bound: all 32 cards are back on
                    // the stack, so the round's trick points add up to 152
                    assert(forall|p: Position|
                        (#[trigger] fin.game.state.hands.spec_cards(p)).len() == 0);
                    fin.game.state.hands.lemma_empty_multiset();
                    fin.turn.lemma_empty_multiset();
                    assert(fin.game.state.initial.stack.cards@.to_multiset()
                        =~= crate::stack::full_deck().to_multiset());
                    crate::card::lemma_seq_points_permutation(
                        fin.game.state.initial.stack.cards@,
                        crate::stack::full_deck(),
                        fin.game.state.trump_color,
                    );
                    crate::card::lemma_full_deck_points(fin.game.state.trump_color);
                    let bonus: u64 = if fin.current_position.spec_team()
                        == fin.game.state.taker.spec_team() {
                        10u64
                    } else {
                        0u64
                    };
                    let attack_total = (fin.attack_points + bonus) as u64;
                    assert(attack_total <= 162 && crate::points::spec_round_settled(
                        self.points,
                        self.state.initial.litige,
                        self.state.taker.spec_team(),
                        attack_total,
                        fin.belote_rebelote,
                        g.points,
                        g.state.litige,
                    ));
                    assert(self.spec_round_outcome(g));
                }
                Ok(NextGameOrInterrupt::NextGame(g))
            },
            Err(e) => {
                proof {
                    assert(false);
                }
                Err(e)
            },
        }
    }
}

} // verus!
