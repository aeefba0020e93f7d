use belote::bidding::{BidAnswer, PlayOrNext, TrumpAnswer};
use belote::card::{Card, Color, Value};
use belote::game::Game;
use belote::hand::Hand;
use belote::hands::Hands;
use belote::initial::Initial;
use belote::order::Order;
use belote::player::Player;
use belote::players::Players;
use belote::playing::{NextGameOrInterrupt, Playing, RoundInPlay};
use belote::points::Points;
use belote::position::Position;
use belote::stack::Stack;
use belote::team::Team;
use belote::turn::Turn;

fn card(color: Color, value: Value) -> Card {
    Card { color, value }
}

fn all_random_players() -> Players {
    Players::new(
        Player::new(true),
        Player::new(true),
        Player::new(true),
        Player::new(true),
    )
}

/// The stack for the scripted round: popped from the back while dealing, it
/// gives North the hearts, turns up the king of hearts, and leaves the
/// completion cards arranged for the script below.
fn scripted_stack() -> Stack {
    let cards = vec![
        card(Color::Club, Value::_8),
        card(Color::Club, Value::_9),
        card(Color::Club, Value::Jack),
        card(Color::Spade, Value::King),
        card(Color::Club, Value::_10),
        card(Color::Club, Value::As),
        card(Color::Spade, Value::_9),
        card(Color::Spade, Value::_8),
        card(Color::Spade, Value::Jack),
        card(Color::Club, Value::_7),
        card(Color::Spade, Value::_7),
        card(Color::Heart, Value::King),
        card(Color::Club, Value::Queen),
        card(Color::Diamond, Value::Queen),
        card(Color::Club, Value::King),
        card(Color::Spade, Value::_10),
        card(Color::Spade, Value::Queen),
        card(Color::Diamond, Value::_10),
        card(Color::Diamond, Value::_8),
        card(Color::Diamond, Value::_7),
        card(Color::Diamond, Value::Jack),
        card(Color::Diamond, Value::_9),
        card(Color::Heart, Value::_7),
        card(Color::Spade, Value::As),
        card(Color::Heart, Value::_10),
        card(Color::Heart, Value::Queen),
        card(Color::Diamond, Value::King),
        card(Color::Diamond, Value::As),
        card(Color::Heart, Value::_8),
        card(Color::Heart, Value::_9),
        card(Color::Heart, Value::Jack),
        card(Color::Heart, Value::As),
    ];
    assert_eq!(cards.len(), 32);
    Stack { cards }
}

/// The end-to-end scenario: deal in order, North takes at the returned
/// king of hearts, eight scripted tricks give the attack exactly 100
/// points and the last trick, for 110 against 52 without belote-rebelote.
#[test]
fn scripted_round_scores_110_to_52() {
    let initial = Initial {
        order: Order::default(),
        number: 0,
        stack: scripted_stack(),
        litige: 0,
    };
    let game = Game::new(all_random_players(), Points::new(), initial);
    let distribution = game.distribute().unwrap();
    let bidding = distribution.bidding().unwrap();
    assert_eq!(
        bidding.state.card_returned,
        card(Color::Heart, Value::King)
    );
    let first_pass = [
        BidAnswer::Take,
        BidAnswer::Decline,
        BidAnswer::Decline,
        BidAnswer::Decline,
    ];
    let second_pass = [TrumpAnswer::Pass; 4];
    let playing = match bidding
        .playing_game_or_redistribute(&first_pass, &second_pass)
        .unwrap()
    {
        PlayOrNext::PlayGame(playing) => playing,
        _ => panic!("the first seat took"),
    };
    assert_eq!(playing.state.taker, Position::North);
    assert_eq!(playing.state.trump_color, Color::Heart);

    let mut round = playing.start_play();
    assert!(round.belote_rebelote.is_none());

    let script: [(Position, Color, Value); 32] = [
        (Position::North, Color::Heart, Value::Jack),
        (Position::East, Color::Heart, Value::_8),
        (Position::South, Color::Heart, Value::Queen),
        (Position::West, Color::Heart, Value::_7),
        (Position::North, Color::Heart, Value::As),
        (Position::East, Color::Spade, Value::Queen),
        (Position::South, Color::Heart, Value::_10),
        (Position::West, Color::Diamond, Value::Queen),
        (Position::North, Color::Heart, Value::_9),
        (Position::East, Color::Spade, Value::Jack),
        (Position::South, Color::Club, Value::As),
        (Position::West, Color::Club, Value::Queen),
        (Position::North, Color::Heart, Value::King),
        (Position::East, Color::Spade, Value::_8),
        (Position::South, Color::Club, Value::_10),
        (Position::West, Color::Club, Value::Jack),
        (Position::North, Color::Diamond, Value::_7),
        (Position::East, Color::Diamond, Value::As),
        (Position::South, Color::Spade, Value::_10),
        (Position::West, Color::Diamond, Value::_9),
        (Position::East, Color::Diamond, Value::King),
        (Position::South, Color::Spade, Value::As),
        (Position::West, Color::Diamond, Value::Jack),
        (Position::North, Color::Diamond, Value::_8),
        (Position::East, Color::Diamond, Value::_10),
        (Position::South, Color::Club, Value::King),
        (Position::West, Color::Club, Value::_9),
        (Position::North, Color::Spade, Value::_7),
        (Position::East, Color::Spade, Value::_9),
        (Position::South, Color::Spade, Value::King),
        (Position::West, Color::Club, Value::_8),
        (Position::North, Color::Club, Value::_7),
    ];
    for (seat, color, value) in script {
        assert!(!round.done());
        assert_eq!(round.current_position, seat);
        let chosen = card(color, value);
        let choices = round.current_choices().unwrap();
        assert!(choices.contains(&chosen), "illegal scripted card");
        round.play_card(&chosen).unwrap();
    }
    assert!(round.done());
    assert_eq!(round.attack_points, 100);
    assert_eq!(round.defense_points, 52);

    let next = round.finish().unwrap();
    assert_eq!(next.points.get(Team::NorthSouth), 110);
    assert_eq!(next.points.get(Team::WestEast), 52);
    assert_eq!(next.state.number, 1);
    assert_eq!(next.state.stack.len(), 32);
}

/// Bidding termination: if every seat declines in both passes the round is
/// redealt, the dealer advances by one seat and no total changes.
#[test]
fn universal_pass_redeals() {
    let initial = Initial {
        order: Order::default(),
        number: 0,
        stack: scripted_stack(),
        litige: 0,
    };
    let game = Game::new(all_random_players(), Points::new(), initial);
    let distribution = game.distribute().unwrap();
    let bidding = distribution.bidding().unwrap();
    let first_pass = [BidAnswer::Decline; 4];
    let second_pass = [TrumpAnswer::Pass; 4];
    let next = match bidding
        .playing_game_or_redistribute(&first_pass, &second_pass)
        .unwrap()
    {
        PlayOrNext::NextGame(next) => next,
        _ => panic!("nobody took"),
    };
    assert_eq!(next.points.get(Team::NorthSouth), 0);
    assert_eq!(next.points.get(Team::WestEast), 0);
    assert_eq!(next.state.number, 1);
    assert_eq!(next.state.order.get(0), Position::East);
    assert_eq!(next.state.stack.len(), 32);
}

/// A cancellation at any seat interrupts the whole round.
#[test]
fn cancellation_interrupts() {
    let initial = Initial {
        order: Order::default(),
        number: 0,
        stack: scripted_stack(),
        litige: 0,
    };
    let game = Game::new(all_random_players(), Points::new(), initial);
    let bidding = game.distribute().unwrap().bidding().unwrap();
    let first_pass = [
        BidAnswer::Decline,
        BidAnswer::Cancel,
        BidAnswer::Take,
        BidAnswer::Decline,
    ];
    let second_pass = [TrumpAnswer::Pass; 4];
    assert!(matches!(
        bidding
            .playing_game_or_redistribute(&first_pass, &second_pass)
            .unwrap(),
        PlayOrNext::Interrupted
    ));
}

/// Naming the returned card's color in the second pass is a caller error.
#[test]
fn second_pass_cannot_name_returned_color() {
    let initial = Initial {
        order: Order::default(),
        number: 0,
        stack: scripted_stack(),
        litige: 0,
    };
    let game = Game::new(all_random_players(), Points::new(), initial);
    let bidding = game.distribute().unwrap().bidding().unwrap();
    // the returned card is the king of hearts
    let first_pass = [BidAnswer::Decline; 4];
    let second_pass = [
        TrumpAnswer::Pass,
        TrumpAnswer::Chosen(Color::Heart),
        TrumpAnswer::Pass,
        TrumpAnswer::Pass,
    ];
    assert!(bidding
        .playing_game_or_redistribute(&first_pass, &second_pass)
        .is_err());
}

/// A second-pass color decides the taker and the trump.
#[test]
fn second_pass_color_decides() {
    let initial = Initial {
        order: Order::default(),
        number: 0,
        stack: scripted_stack(),
        litige: 0,
    };
    let game = Game::new(all_random_players(), Points::new(), initial);
    let bidding = game.distribute().unwrap().bidding().unwrap();
    let first_pass = [BidAnswer::Decline; 4];
    let second_pass = [
        TrumpAnswer::Pass,
        TrumpAnswer::Chosen(Color::Spade),
        TrumpAnswer::Pass,
        TrumpAnswer::Pass,
    ];
    let playing = match bidding
        .playing_game_or_redistribute(&first_pass, &second_pass)
        .unwrap()
    {
        PlayOrNext::PlayGame(playing) => playing,
        _ => panic!("the second seat chose spades"),
    };
    assert_eq!(playing.state.taker, Position::East);
    assert_eq!(playing.state.trump_color, Color::Spade);
    // every hand is complete and the taker holds the returned card
    for seat in [
        Position::North,
        Position::East,
        Position::South,
        Position::West,
    ] {
        assert_eq!(playing.state.hands.hand(seat).len(), 8);
    }
    assert!(playing
        .state
        .hands
        .hand(Position::East)
        .cards
        .contains(&card(Color::Heart, Value::King)));
}

/// Belote-rebelote: holding the trump queen and king sets the flag for
/// that seat's team, and scoring adds a flat +20 to that team whatever the
/// trick outcome was.
#[test]
fn belote_rebelote_flag_and_bonus() {
    let mut hand = Hand::new();
    hand.take(card(Color::Heart, Value::Queen)).unwrap();
    hand.take(card(Color::Heart, Value::King)).unwrap();
    assert!(hand.belote_rebelote(Color::Heart));
    assert!(!hand.belote_rebelote(Color::Spade));
    let mut no_king = Hand::new();
    no_king.take(card(Color::Heart, Value::Queen)).unwrap();
    assert!(!no_king.belote_rebelote(Color::Heart));

    // a finished round where the defense held belote-rebelote: the +20
    // lands on the defense even though the attack made its contract
    let done = RoundInPlay {
        game: Game::new(
            all_random_players(),
            Points::new(),
            Playing::new(
                Position::North,
                Hands::default(),
                Color::Heart,
                Initial {
                    order: Order::default(),
                    number: 0,
                    stack: Stack::new(),
                    litige: 0,
                },
            ),
        ),
        belote_rebelote: Some(Team::WestEast),
        current_position: Position::North,
        turn: Turn::new(9, Order::default()),
        attack_points: 100,
        defense_points: 72,
    };
    let next = done.finish().unwrap();
    // attack total 110 against a 92 threshold and 182 total
    assert_eq!(next.points.get(Team::NorthSouth), 110);
    assert_eq!(next.points.get(Team::WestEast), 72 + 20);
}

/// The full random driver plays whole rounds and keeps the session alive.
#[test]
fn random_rounds_run() {
    belote::helpers::test_game(3).unwrap();
}

/// The interactive driver path: a session whose seats are not all random
/// still resolves auctions from supplied answers.
#[test]
fn manual_session_steps() {
    let players = Players::new(
        Player::new(false),
        Player::new(true),
        Player::new(true),
        Player::new(true),
    );
    assert!(!players.full_random());
    assert_eq!(players.random_count(), 3);
    let initial = Initial {
        order: Order::default(),
        number: 0,
        stack: scripted_stack(),
        litige: 0,
    };
    let game = Game::new(players, Points::new(), initial);
    let bidding = game.distribute().unwrap().bidding().unwrap();
    let first_pass = [
        BidAnswer::Take,
        BidAnswer::Decline,
        BidAnswer::Decline,
        BidAnswer::Decline,
    ];
    let playing = match bidding
        .playing_game_or_redistribute(&first_pass, &[TrumpAnswer::Pass; 4])
        .unwrap()
    {
        PlayOrNext::PlayGame(playing) => playing,
        _ => panic!("north took"),
    };
    let round = playing.start_play();
    let choices = round.current_choices().unwrap();
    assert!(!choices.is_empty());
}

/// `NextGameOrInterrupt` carries the next round out of the trick phase.
#[test]
fn next_game_wrapper_holds_the_round() {
    let initial = Initial {
        order: Order::default(),
        number: 3,
        stack: Stack::new(),
        litige: 0,
    };
    let next = NextGameOrInterrupt::NextGame(Game::new(
        all_random_players(),
        Points::new(),
        initial,
    ));
    match next {
        NextGameOrInterrupt::NextGame(game) => assert_eq!(game.state.number, 3),
        NextGameOrInterrupt::Interrupted => panic!("not interrupted"),
    }
}
