use std::str::FromStr;

use belote::card::{Card, Color, Value};
use belote::contract::Contract;
use belote::errors::BeloteErrorKind;

#[test]
fn card_tests() {
    assert!(Card::from_str("\u{2666}J").is_ok());

    let spade_7 = Card {
        color: Color::Spade,
        value: Value::_7,
    };
    let spade_10 = Card {
        color: Color::Spade,
        value: Value::_10,
    };
    let diamond_7 = Card {
        color: Color::Diamond,
        value: Value::_7,
    };
    let club_8 = Card {
        color: Color::Club,
        value: Value::_8,
    };
    assert!(!spade_10.master(diamond_7, Color::Diamond));
    assert!(spade_10.master(spade_7, Color::Club));
    assert!(club_8.master(diamond_7, Color::Heart));

    let heart_10 = Card {
        color: Color::Heart,
        value: Value::_10,
    };
    let heart_j = Card {
        color: Color::Heart,
        value: Value::Jack,
    };
    assert!(heart_j.master(heart_10, Color::Heart));
}

#[test]
fn points_table() {
    let trump = Color::Heart;
    let card = |color: Color, value: Value| Card { color, value };
    assert_eq!(card(Color::Heart, Value::Jack).points(trump), 20);
    assert_eq!(card(Color::Heart, Value::_9).points(trump), 14);
    assert_eq!(card(Color::Heart, Value::As).points(trump), 11);
    assert_eq!(card(Color::Heart, Value::_10).points(trump), 10);
    assert_eq!(card(Color::Heart, Value::King).points(trump), 4);
    assert_eq!(card(Color::Heart, Value::Queen).points(trump), 3);
    assert_eq!(card(Color::Heart, Value::_8).points(trump), 0);
    assert_eq!(card(Color::Heart, Value::_7).points(trump), 0);
    assert_eq!(card(Color::Spade, Value::Jack).points(trump), 2);
    assert_eq!(card(Color::Spade, Value::_9).points(trump), 0);
    assert_eq!(card(Color::Spade, Value::As).points(trump), 11);
}

#[test]
fn power_table() {
    let trump = Color::Club;
    let card = |color: Color, value: Value| Card { color, value };
    // trumps rank J > 9 > A > 10 > K > Q > 8 > 7
    assert!(card(Color::Club, Value::Jack).power(trump) > card(Color::Club, Value::_9).power(trump));
    assert!(card(Color::Club, Value::_9).power(trump) > card(Color::Club, Value::As).power(trump));
    assert!(card(Color::Club, Value::As).power(trump) > card(Color::Club, Value::_10).power(trump));
    assert!(card(Color::Club, Value::_10).power(trump) > card(Color::Club, Value::King).power(trump));
    assert!(card(Color::Club, Value::King).power(trump) > card(Color::Club, Value::Queen).power(trump));
    assert!(card(Color::Club, Value::Queen).power(trump) > card(Color::Club, Value::_8).power(trump));
    assert!(card(Color::Club, Value::_8).power(trump) > card(Color::Club, Value::_7).power(trump));
    // the other colors rank A > 10 > K > Q > J > 9 > 8 > 7, strictly
    assert!(card(Color::Diamond, Value::As).power(trump) > card(Color::Diamond, Value::_10).power(trump));
    assert!(card(Color::Diamond, Value::_10).power(trump) > card(Color::Diamond, Value::King).power(trump));
    assert!(card(Color::Diamond, Value::King).power(trump) > card(Color::Diamond, Value::Queen).power(trump));
    assert!(card(Color::Diamond, Value::Queen).power(trump) > card(Color::Diamond, Value::Jack).power(trump));
    assert!(card(Color::Diamond, Value::Jack).power(trump) > card(Color::Diamond, Value::_9).power(trump));
    assert!(card(Color::Diamond, Value::_9).power(trump) > card(Color::Diamond, Value::_8).power(trump));
    assert!(card(Color::Diamond, Value::_8).power(trump) > card(Color::Diamond, Value::_7).power(trump));
    // a later 9 of the led color does not take the trick from its jack
    assert!(card(Color::Diamond, Value::Jack).master(card(Color::Diamond, Value::_9), trump));
    assert!(!card(Color::Diamond, Value::_9).master(card(Color::Diamond, Value::Jack), trump));
}

#[test]
fn parse_colors_and_values() {
    assert_eq!(Color::from_str("\u{2660}"), Ok(Color::Spade));
    assert_eq!(Color::from_str("\u{2665}"), Ok(Color::Heart));
    assert_eq!(Color::from_str("\u{2666}"), Ok(Color::Diamond));
    assert_eq!(Color::from_str("\u{2663}"), Ok(Color::Club));
    assert!(matches!(
        Color::from_str("x"),
        Err(BeloteErrorKind::InvalidColor(_))
    ));
    assert_eq!(Value::from_str("J"), Ok(Value::Jack));
    assert_eq!(Value::from_str("10"), Ok(Value::_10));
    assert_eq!(Value::from_str("11"), Ok(Value::As));
    assert!(matches!(
        Value::from_str("3"),
        Err(BeloteErrorKind::InvalidValue(_))
    ));
    let parsed = Card::from_str("\u{2660}10").unwrap();
    assert_eq!(
        parsed,
        Card {
            color: Color::Spade,
            value: Value::_10
        }
    );
    assert!(matches!(
        Card::from_str(""),
        Err(BeloteErrorKind::InvalidCard(_))
    ));
    assert!(matches!(
        Card::from_str("\u{2660}"),
        Err(BeloteErrorKind::InvalidCard(_))
    ));
    assert_ne!(BeloteErrorKind::NoTaker, BeloteErrorKind::InvalidCase(String::new()));
}

#[test]
fn parse_contract() {
    assert_eq!(Contract::from_str("Pass"), Ok(Contract::Pass));
    assert_eq!(Contract::from_str("\u{2665}"), Ok(Contract::Heart));
    assert_eq!(Contract::Heart.color(), Some(Color::Heart));
    assert_eq!(Contract::Pass.color(), None);
    assert!(Contract::from_str("nope").is_err());
}
