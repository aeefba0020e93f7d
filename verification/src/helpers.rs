//! A driver for bulk simulation: whole rounds with four randomized players,
//! auction answers and card choices drawn at random, session totals kept
//! across rounds.

use vstd::prelude::*;

use crate::bidding::{all_declined, all_passed, first_undeclined, first_unpassed};
use crate::bidding::{lemma_undeclined_exists, lemma_unpassed_exists};
use crate::bidding::{BidAnswer, PlayOrNext, TrumpAnswer};
use crate::card::Color;
use crate::errors::BeloteErrorKind;
use crate::game::Game;
use crate::order::Order;
use crate::player::Player;
use crate::players::Players;
use crate::playing::NextGameOrInterrupt;
use crate::rng::random_below;

verus! {

/// The three colors a second-pass bidder may name when `excluded` was
/// turned up.
fn legal_trump_colors(excluded: Color) -> (r: [Color; 3])
    ensures
        forall|i: int| 0 <= i < 3 ==> r@[i] != excluded,
{
    match excluded {
        Color::Heart => [Color::Spade, Color::Diamond, Color::Club],
        Color::Spade => [Color::Heart, Color::Diamond, Color::Club],
        Color::Diamond => [Color::Heart, Color::Spade, Color::Club],
        Color::Club => [Color::Heart, Color::Spade, Color::Diamond],
    }
}

/// One random first-pass answer: a take with one chance in four, as the
/// four-random-seat bias gives.
fn random_bid_answer() -> (r: BidAnswer)
    ensures
        r != BidAnswer::Cancel,
{
    if random_below(4) == 0 {
        BidAnswer::Take
    } else {
        BidAnswer::Decline
    }
}

/// One random second-pass answer: with one chance in four a uniformly
/// random legal color, else a pass.
fn random_trump_answer(excluded: Color) -> (r: TrumpAnswer)
    ensures
        r != TrumpAnswer::Cancel,
        r != TrumpAnswer::Chosen(excluded),
{
    if random_below(4) == 0 {
        let colors = legal_trump_colors(excluded);
        let index = random_below(3);
        TrumpAnswer::Chosen(colors[index])
    } else {
        TrumpAnswer::Pass
    }
}

/// Play `games` whole rounds with four randomized players. Randomized
/// rounds never block on a prompt and never cancel, so the whole run
/// succeeds.
#[verifier::rlimit(60)]
pub fn test_game(games: u64) -> (r: Result<(), BeloteErrorKind>)
    ensures
        r is Ok,
{
    let players = Players::new(
        Player::new(true),
        Player::new(true),
        Player::new(true),
        Player::new(true),
    );
    let order = Order::random();
    let mut game = Game::default(players, order);
    let mut i: u64 = 0;
    while i < games
        invariant
            i <= games,
            game.state.wf(),
            game.players.spec_full_random(),
            game.state.number == i,
        decreases games - i,
    {
        let distribution = game.distribute()?;
        let bidding = distribution.bidding()?;
        let first_pass: [BidAnswer; 4] = [
            random_bid_answer(),
            random_bid_answer(),
            random_bid_answer(),
            random_bid_answer(),
        ];
        let returned_color = bidding.state.card_returned.color();
        let second_pass: [TrumpAnswer; 4] = [
            random_trump_answer(returned_color),
            random_trump_answer(returned_color),
            random_trump_answer(returned_color),
            random_trump_answer(returned_color),
        ];
        let ghost pre = bidding;
        let outcome = match bidding.playing_game_or_redistribute(&first_pass, &second_pass) {
            Ok(outcome) => outcome,
            Err(e) => {
                // an error names the returned card's color in the second
                // pass, which the random answers never do
                proof {
                    let k = choose|k: int|
                        first_unpassed(second_pass@, k) && second_pass@[k] == TrumpAnswer::Chosen(
                            pre.state.card_returned.color,
                        );
                    assert(second_pass@[k] != TrumpAnswer::Chosen(pre.state.card_returned.color));
                    assert(false);
                }
                return Err(e);
            },
        };
        proof {
            // neither pass holds a cancellation, and no chosen color is the
            // returned card's, so the auction either redeals or plays
            if !all_declined(first_pass@) {
                lemma_undeclined_exists(first_pass@);
            } else if !all_passed(second_pass@) {
                lemma_unpassed_exists(second_pass@);
            }
        }
        game = match outcome {
            PlayOrNext::NextGame(next_game) => {
                proof {
                    if !all_declined(first_pass@) {
                        let k = choose|k: int| first_undeclined(first_pass@, k);
                        assert(first_pass@[k] == BidAnswer::Take);
                        assert(false);
                    } else if !all_passed(second_pass@) {
                        let k = choose|k: int| first_unpassed(second_pass@, k);
                        if let TrumpAnswer::Chosen(c) = second_pass@[k] {
                            assert(first_unpassed(second_pass@, k));
                            assert(second_pass@[k] == TrumpAnswer::Chosen(c));
                            assert(c != pre.state.card_returned.color);
                            assert(false);
                        } else {
                            assert(second_pass@[k] == TrumpAnswer::Cancel);
                            assert(false);
                        }
                    }
                    assert(pre.spec_redeal_outcome(next_game));
                }
                next_game
            },
            PlayOrNext::PlayGame(in_game) => {
                proof {
                    if !all_declined(first_pass@) {
                        let k = choose|k: int| first_undeclined(first_pass@, k);
                        assert(first_pass@[k] == BidAnswer::Take);
                        assert(pre.spec_play_outcome(
                            in_game,
                            k,
                            pre.state.card_returned.color,
                        ));
                    } else if !all_passed(second_pass@) {
                        let k = choose|k: int| first_unpassed(second_pass@, k);
                        if let TrumpAnswer::Chosen(c) = second_pass@[k] {
                            assert(pre.spec_play_outcome(in_game, k, c));
                        } else {
                            assert(second_pass@[k] == TrumpAnswer::Cancel);
                            assert(false);
                        }
                    } else {
                        assert(false);
                    }
                }
                match in_game.play() {
                    Ok(NextGameOrInterrupt::NextGame(next_game)) => next_game,
                    Ok(NextGameOrInterrupt::Interrupted) => {
                        proof {
                            assert(false);
                        }
                        return Ok(());
                    },
                    Err(e) => {
                        proof {
                            assert(false);
                        }
                        return Err(e);
                    },
                }
            },
            PlayOrNext::Interrupted => {
                return Ok(());
            },
        };
        i = i + 1;
    }
    Ok(())
}

} // verus!
