use belote::card::{Card, Color, Value};
use belote::deck::Deck;
use belote::hand::Hand;
use belote::rng::random_below;
use belote::stack::Stack;

fn card(color: Color, value: Value) -> Card {
    Card { color, value }
}

fn counts(cards: &[Card]) -> Vec<(Card, usize)> {
    let mut seen: Vec<(Card, usize)> = Vec::new();
    for c in cards {
        match seen.iter_mut().find(|(d, _)| d == c) {
            Some((_, n)) => *n += 1,
            None => seen.push((*c, 1)),
        }
    }
    seen.sort_by_key(|(d, _)| {
        let suit = match d.color {
            Color::Heart => 0,
            Color::Spade => 1,
            Color::Diamond => 2,
            Color::Club => 3,
        };
        let rank = match d.value {
            Value::_7 => 0,
            Value::_8 => 1,
            Value::_9 => 2,
            Value::Jack => 3,
            Value::Queen => 4,
            Value::King => 5,
            Value::_10 => 6,
            Value::As => 7,
        };
        suit * 8 + rank
    });
    seen
}

#[test]
fn fresh_stack_holds_each_card_once() {
    let stack = Stack::new();
    assert_eq!(stack.len(), 32);
    for (_, n) in counts(&stack.cards) {
        assert_eq!(n, 1);
    }
}

#[test]
fn shuffled_stack_is_a_permutation() {
    let shuffled = Stack::random();
    assert_eq!(shuffled.len(), 32);
    assert_eq!(counts(&shuffled.cards), counts(&Stack::new().cards));
}

#[test]
fn cut_keeps_the_cards() {
    let mut stack = Stack::new();
    stack.cut();
    assert_eq!(stack.len(), 32);
    assert_eq!(counts(&stack.cards), counts(&Stack::new().cards));
}

#[test]
fn stack_deals_from_the_top() {
    let mut stack = Stack::new();
    // the build order ends on the seven of diamonds
    assert_eq!(stack.give_card().unwrap(), card(Color::Diamond, Value::_7));
    assert_eq!(stack.give_card().unwrap(), card(Color::Diamond, Value::_8));
    assert_eq!(stack.len(), 30);
    let mut empty = Stack::empty();
    assert!(empty.give_card().is_err());
    assert!(empty.is_empty());
}

#[test]
fn full_stack_refuses_a_card() {
    let mut stack = Stack::new();
    assert!(stack
        .append_card(card(Color::Heart, Value::As))
        .is_err());
    stack.give_card().unwrap();
    assert!(stack
        .append_card(card(Color::Heart, Value::As))
        .is_ok());
}

#[test]
fn hand_takes_and_gives() {
    let mut hand = Hand::new();
    assert!(hand.is_empty());
    for value in [
        Value::_7,
        Value::_8,
        Value::_9,
        Value::Jack,
        Value::Queen,
        Value::King,
        Value::_10,
        Value::As,
    ] {
        hand.take(card(Color::Spade, value)).unwrap();
    }
    assert_eq!(hand.len(), 8);
    // a ninth card is refused
    assert!(hand.take(card(Color::Heart, Value::As)).is_err());
    // giving removes exactly the asked card
    assert_eq!(
        hand.give(&card(Color::Spade, Value::Queen)),
        Some(card(Color::Spade, Value::Queen))
    );
    assert_eq!(hand.len(), 7);
    assert_eq!(hand.give(&card(Color::Spade, Value::Queen)), None);
    assert_eq!(hand.give(&card(Color::Heart, Value::_7)), None);
}

#[test]
fn deck_gathers_cards() {
    let mut deck = Deck::new();
    assert!(deck.is_empty());
    deck.append_card(&card(Color::Heart, Value::As));
    let mut hand = Hand::new();
    hand.take(card(Color::Spade, Value::_7)).unwrap();
    deck.append_hand(hand);
    let mut stack = Stack::empty();
    stack.append_card(card(Color::Club, Value::_9)).unwrap();
    deck.append_stack_iter(&stack);
    let mut other = Deck::new();
    other.append_card(&card(Color::Diamond, Value::King));
    deck.append_deck(other);
    assert_eq!(deck.len(), 4);
    assert_eq!(deck.cards[0], card(Color::Heart, Value::As));
    assert_eq!(deck.cards[3], card(Color::Diamond, Value::King));
    deck.cut();
    assert_eq!(deck.len(), 4);
}

#[test]
fn random_below_stays_below() {
    for n in 1..20 {
        for _ in 0..10 {
            assert!(random_below(n) < n);
        }
    }
}
