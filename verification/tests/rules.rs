use belote::card::{Card, Color, Value};
use belote::hand::Hand;
use belote::order::Order;
use belote::player::Player;
use belote::position::Position;
use belote::turn::Turn;

fn card(color: Color, value: Value) -> Card {
    Card { color, value }
}

/// A trick in which `leader` has led `led`, with enough tricks gone that a
/// hand of `hand_len` cards is consistent.
fn trick_after_lead(hand_len: u64, leader: Position, led: Card, trump: Color) -> Turn {
    let mut turn = Turn::new(9 - hand_len, Order::default());
    assert!(turn.put(trump, leader, &led));
    turn
}

#[test]
fn first_player_may_play_anything() {
    let player = Player::new(true);
    let hand = Hand {
        cards: vec![
            card(Color::Spade, Value::As),
            card(Color::Heart, Value::_7),
        ],
    };
    let turn = Turn::new(7, Order::default());
    let choices = player
        .choices(&hand, &Position::North, &turn, Color::Heart)
        .unwrap();
    assert_eq!(choices.len(), 2);
}

#[test]
fn follow_suit_excludes_other_colors() {
    // the seat holds a card of the led non-trump color: nothing else is legal
    let player = Player::new(true);
    let hand = Hand {
        cards: vec![
            card(Color::Spade, Value::As),
            card(Color::Diamond, Value::_7),
        ],
    };
    let turn = trick_after_lead(2, Position::West, card(Color::Diamond, Value::King), Color::Heart);
    let choices = player
        .choices(&hand, &Position::North, &turn, Color::Heart)
        .unwrap();
    assert_eq!(choices, vec![card(Color::Diamond, Value::_7)]);
}

#[test]
fn trump_led_must_go_over() {
    // trumps led and a higher trump held: weaker trumps and other colors drop out
    let player = Player::new(true);
    let hand = Hand {
        cards: vec![
            card(Color::Heart, Value::Jack),
            card(Color::Heart, Value::_7),
            card(Color::Spade, Value::As),
        ],
    };
    let turn = trick_after_lead(3, Position::West, card(Color::Heart, Value::_10), Color::Heart);
    let choices = player
        .choices(&hand, &Position::North, &turn, Color::Heart)
        .unwrap();
    assert_eq!(choices, vec![card(Color::Heart, Value::Jack)]);
}

#[test]
fn trump_led_without_higher_goes_under() {
    let player = Player::new(true);
    let hand = Hand {
        cards: vec![
            card(Color::Heart, Value::_7),
            card(Color::Spade, Value::As),
        ],
    };
    let turn = trick_after_lead(2, Position::West, card(Color::Heart, Value::_10), Color::Heart);
    let choices = player
        .choices(&hand, &Position::North, &turn, Color::Heart)
        .unwrap();
    assert_eq!(choices, vec![card(Color::Heart, Value::_7)]);
}

#[test]
fn own_team_master_keeps_discards_legal() {
    // South (North's teammate) masters the trick; North cannot follow and
    // still holds a non-trump card: discarding stays legal besides the
    // overtrumping trump
    let player = Player::new(true);
    let hand = Hand {
        cards: vec![
            card(Color::Heart, Value::Jack),
            card(Color::Spade, Value::As),
        ],
    };
    let turn = trick_after_lead(2, Position::South, card(Color::Diamond, Value::_10), Color::Heart);
    let choices = player
        .choices(&hand, &Position::North, &turn, Color::Heart)
        .unwrap();
    assert!(choices.contains(&card(Color::Spade, Value::As)));
    assert!(choices.contains(&card(Color::Heart, Value::Jack)));
    assert_eq!(choices.len(), 2);
}

#[test]
fn own_team_master_offers_only_overtrumps() {
    // the teammate masters with a non-trump ace: the trump jack goes over
    // it, the trump queen does not, so the queen drops out of the choices
    let player = Player::new(true);
    let hand = Hand {
        cards: vec![
            card(Color::Heart, Value::Queen),
            card(Color::Heart, Value::Jack),
            card(Color::Spade, Value::_7),
        ],
    };
    let turn = trick_after_lead(3, Position::South, card(Color::Diamond, Value::As), Color::Heart);
    let choices = player
        .choices(&hand, &Position::North, &turn, Color::Heart)
        .unwrap();
    assert!(choices.contains(&card(Color::Spade, Value::_7)));
    assert!(choices.contains(&card(Color::Heart, Value::Jack)));
    assert!(!choices.contains(&card(Color::Heart, Value::Queen)));
    assert_eq!(choices.len(), 2);
}

#[test]
fn opponent_master_forces_the_trump() {
    let player = Player::new(true);
    let hand = Hand {
        cards: vec![
            card(Color::Heart, Value::_7),
            card(Color::Spade, Value::As),
        ],
    };
    let turn = trick_after_lead(2, Position::East, card(Color::Diamond, Value::_10), Color::Heart);
    let choices = player
        .choices(&hand, &Position::North, &turn, Color::Heart)
        .unwrap();
    assert_eq!(choices, vec![card(Color::Heart, Value::_7)]);
}

#[test]
fn legal_moves_never_empty() {
    // every branch of the resolver leaves something to play
    let player = Player::new(true);
    let hands = [
        vec![card(Color::Spade, Value::_7)],
        vec![card(Color::Heart, Value::_7)],
        vec![card(Color::Club, Value::As)],
    ];
    for cards in hands {
        let hand = Hand { cards };
        let turn =
            trick_after_lead(1, Position::East, card(Color::Diamond, Value::As), Color::Heart);
        let choices = player
            .choices(&hand, &Position::North, &turn, Color::Heart)
            .unwrap();
        assert!(!choices.is_empty());
    }
}

#[test]
fn choices_rejects_wrong_hand_size() {
    let player = Player::new(true);
    let hand = Hand {
        cards: vec![card(Color::Spade, Value::As)],
    };
    // one card in hand but the first trick: the count does not match
    let turn = Turn::new(1, Order::default());
    assert!(player
        .choices(&hand, &Position::North, &turn, Color::Heart)
        .is_err());
}

#[test]
fn turn_tracks_the_master() {
    let trump = Color::Heart;
    let mut turn = Turn::new(8, Order::default());
    assert!(turn.is_first());
    assert!(turn.put(trump, Position::North, &card(Color::Diamond, Value::_10)));
    assert_eq!(turn.called_color(), Some(Color::Diamond));
    assert_eq!(turn.master_position(), Position::North);
    // a higher diamond takes over
    assert!(turn.put(trump, Position::East, &card(Color::Diamond, Value::As)));
    assert_eq!(turn.master_position(), Position::East);
    // another color never masters
    assert!(turn.put(trump, Position::South, &card(Color::Spade, Value::As)));
    assert_eq!(turn.master_position(), Position::East);
    // a trump beats any non-trump
    assert!(turn.put(trump, Position::West, &card(Color::Heart, Value::_7)));
    assert_eq!(turn.master_position(), Position::West);
    assert!(turn.finished());
    // the same seat cannot play twice
    let mut again = Turn::new(8, Order::default());
    assert!(again.put(trump, Position::North, &card(Color::Diamond, Value::_10)));
    assert!(!again.put(trump, Position::North, &card(Color::Diamond, Value::_7)));
    let cards = turn.take().unwrap();
    assert_eq!(cards[3], card(Color::Heart, Value::_7));
}
