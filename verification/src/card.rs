//! Card identity: color (suit) and value, with the two trump-relative
//! numeric functions `points` (official point value) and `power` (the
//! ranking, strict within each color class, that decides which card
//! masters a trick).

use vstd::prelude::*;
use vstd::string::StrSliceExecFns;

use crate::errors::BeloteErrorKind;

verus! {

#[derive(Clone, Copy, Debug, PartialEq, Eq, Structural, Hash)]
pub enum Color {
    Heart,
    Spade,
    Diamond,
    Club,
}

#[derive(Clone, Copy, Debug, PartialEq, Eq, Structural, Hash)]
pub enum Value {
    _7,
    _8,
    _9,
    Jack,
    Queen,
    King,
    _10,
    As,
}

#[derive(Clone, Copy, Debug, PartialEq, Eq, Structural, Hash)]
pub struct Card {
    pub color: Color,
    pub value: Value,
}

impl Card {
    /// Official point value of the card when `trump_color` is trump.
    pub open spec fn spec_points(self, trump_color: Color) -> u64 {
        match self.value {
            Value::Jack => if self.color == trump_color { 20 } else { 2 },
            Value::_9 => if self.color == trump_color { 14 } else { 0 },
            Value::As => 11,
            Value::_10 => 10,
            Value::King => 4,
            Value::Queen => 3,
            Value::_7 => 0,
            Value::_8 => 0,
        }
    }

    /// Ranking of the card when `trump_color` is trump; within a color
    /// class a strictly higher power wins. Trumps rank J > 9 > A > 10 > K >
    /// Q > 8 > 7, the other colors A > 10 > K > Q > J > 9 > 8 > 7, so the
    /// order differs from the point values on the 8 and on the non-trump
    /// jack and 9. The encoding leaves room between neighbours so that a
    /// trump's power stands to a non-trump power exactly as the classic
    /// tables have it.
    pub open spec fn spec_power(self, trump_color: Color) -> u8 {
        if self.color == trump_color {
            match self.value {
                Value::Jack => 40,
                Value::_9 => 28,
                Value::As => 22,
                Value::_10 => 20,
                Value::King => 8,
                Value::Queen => 6,
                Value::_8 => 2,
                Value::_7 => 0,
            }
        } else {
            match self.value {
                Value::As => 22,
                Value::_10 => 20,
                Value::King => 8,
                Value::Queen => 6,
                Value::Jack => 4,
                Value::_9 => 3,
                Value::_8 => 2,
                Value::_7 => 0,
            }
        }
    }

    /// Whether `self`, already placed, stays master against a later `arg`:
    /// a trump beats any non-trump; within the same trump status a strictly
    /// higher power wins; a non-trump of another color never takes over.
    pub open spec fn spec_master(self, arg: Card, trump_color: Color) -> bool {
        if self.color == trump_color && arg.color != trump_color {
            true
        } else if self.color != trump_color && arg.color == trump_color {
            false
        } else {
            self.color != arg.color || self.spec_power(trump_color) > arg.spec_power(trump_color)
        }
    }

    pub fn new(color: Color, value: Value) -> (r: Option<Self>)
        ensures
            r == Some(Card { color, value }),
    {
        Some(Self { color, value })
    }

    pub fn points(&self, trump_color: Color) -> (r: u64)
        ensures
            r == self.spec_points(trump_color),
    {
        match self.value {
            Value::Jack => if self.color == trump_color { 20 } else { 2 },
            Value::_9 => if self.color == trump_color { 14 } else { 0 },
            Value::As => 11,
            Value::_10 => 10,
            Value::King => 4,
            Value::Queen => 3,
            Value::_7 | Value::_8 => 0,
        }
    }

    pub fn color(&self) -> (r: Color)
        ensures
            r == self.color,
    {
        self.color
    }

    pub fn value(&self) -> (r: Value)
        ensures
            r == self.value,
    {
        self.value
    }

    pub fn master(self, arg: Self, trump_color: Color) -> (r: bool)
        ensures
            r == self.spec_master(arg, trump_color),
    {
        if self.color == trump_color && arg.color != trump_color {
            true
        } else if self.color != trump_color && arg.color == trump_color {
            false
        } else {
            self.color != arg.color || self.power(trump_color) > arg.power(trump_color)
        }
    }

    pub fn power(self, trump_color: Color) -> (r: u8)
        ensures
            r == self.spec_power(trump_color),
    {
        if self.color == trump_color {
            match self.value {
                Value::Jack => 40,
                Value::_9 => 28,
                Value::As => 22,
                Value::_10 => 20,
                Value::King => 8,
                Value::Queen => 6,
                Value::_8 => 2,
                Value::_7 => 0,
            }
        } else {
            match self.value {
                Value::As => 22,
                Value::_10 => 20,
                Value::King => 8,
                Value::Queen => 6,
                Value::Jack => 4,
                Value::_9 => 3,
                Value::_8 => 2,
                Value::_7 => 0,
            }
        }
    }
}

/// No card is worth more than 20 points; the scoring loops lean on this
/// bound to rule out overflow.
pub proof fn lemma_points_bounded(c: Card, trump_color: Color)
    ensures
        c.spec_points(trump_color) <= 20,
{
}

/// Power is a strict total order within a color class: two distinct cards
/// of one color never share a power, so of the two exactly one masters the
/// other, the one with the strictly higher power.
pub proof fn lemma_power_strict(c1: Card, c2: Card, trump_color: Color)
    requires
        c1.color == c2.color,
        c1.value != c2.value,
    ensures
        c1.spec_power(trump_color) != c2.spec_power(trump_color),
        c1.spec_master(c2, trump_color) <==> !c2.spec_master(c1, trump_color),
        c1.spec_master(c2, trump_color) <==> c1.spec_power(trump_color) > c2.spec_power(
            trump_color,
        ),
{
}

/// The point total of a sequence of cards.
pub open spec fn spec_seq_points(cards: Seq<Card>, trump_color: Color) -> int
    decreases cards.len(),
{
    if cards.len() == 0 {
        0
    } else {
        spec_seq_points(cards.drop_last(), trump_color) + cards.last().spec_points(trump_color)
    }
}

/// Appending a card adds its points to the total.
pub proof fn lemma_seq_points_push(cards: Seq<Card>, card: Card, trump_color: Color)
    ensures
        spec_seq_points(cards.push(card), trump_color) == spec_seq_points(cards, trump_color)
            + card.spec_points(trump_color),
{
    assert(cards.push(card).drop_last() =~= cards);
}

/// Removing a card subtracts its points from the total.
pub proof fn lemma_seq_points_remove(cards: Seq<Card>, i: int, trump_color: Color)
    requires
        0 <= i < cards.len(),
    ensures
        spec_seq_points(cards.remove(i), trump_color) == spec_seq_points(cards, trump_color)
            - cards[i].spec_points(trump_color),
    decreases cards.len(),
{
    if i == cards.len() - 1 {
        assert(cards.remove(i) =~= cards.drop_last());
    } else {
        assert(cards.remove(i).drop_last() =~= cards.drop_last().remove(i));
        assert(cards.remove(i).last() == cards.last());
        lemma_seq_points_remove(cards.drop_last(), i, trump_color);
    }
}

/// The point total depends only on which cards are there, not their order.
pub proof fn lemma_seq_points_permutation(s1: Seq<Card>, s2: Seq<Card>, trump_color: Color)
    requires
        s1.to_multiset() == s2.to_multiset(),
    ensures
        spec_seq_points(s1, trump_color) == spec_seq_points(s2, trump_color),
    decreases s1.len(),
{
    broadcast use vstd::seq_lib::group_seq_properties;

    if s1.len() == 0 {
        assert(s2.to_multiset().len() == 0);
        assert(s2.len() == 0);
    } else {
        let c = s1.last();
        assert(s1.to_multiset().count(c) > 0) by {
            assert(s1.remove(s1.len() - 1).to_multiset() =~= s1.to_multiset().remove(c));
        }
        assert(s2.to_multiset().count(c) > 0);
        assert(s2.contains(c));
        let i = choose|i: int| 0 <= i < s2.len() && s2[i] == c;
        assert(s1.drop_last() =~= s1.remove(s1.len() - 1));
        assert(s1.remove(s1.len() - 1).to_multiset() =~= s1.to_multiset().remove(c));
        assert(s2.remove(i).to_multiset() =~= s2.to_multiset().remove(c));
        lemma_seq_points_permutation(s1.drop_last(), s2.remove(i), trump_color);
        lemma_seq_points_remove(s2, i, trump_color);
    }
}

/// The 32-card deck is worth 152 points, whatever the trump color.
pub proof fn lemma_full_deck_points(trump_color: Color)
    ensures
        spec_seq_points(crate::stack::full_deck(), trump_color) == 152,
{
    reveal_with_fuel(spec_seq_points, 33);
    assert(spec_seq_points(crate::stack::full_deck(), trump_color) == 152);
}

impl core::str::FromStr for Color {
    type Err = BeloteErrorKind;

    /// A color is one suit symbol.
    fn from_str(s: &str) -> Result<Self, Self::Err> {
        if s.unicode_len() != 1 {
            return Err(BeloteErrorKind::InvalidColor(s.to_owned()));
        }
        let c = s.get_char(0);
        if c == '\u{2660}' {
            Ok(Self::Spade)
        } else if c == '\u{2666}' {
            Ok(Self::Diamond)
        } else if c == '\u{2663}' {
            Ok(Self::Club)
        } else if c == '\u{2665}' {
            Ok(Self::Heart)
        } else {
            Err(BeloteErrorKind::InvalidColor(s.to_owned()))
        }
    }
}

impl core::str::FromStr for Value {
    type Err = BeloteErrorKind;

    /// A value is `7`, `8`, `9`, `J`, `Q`, `K`, `10`, or `11` for the ace.
    fn from_str(s: &str) -> Result<Self, Self::Err> {
        let n = s.unicode_len();
        if n == 1 {
            match s.get_char(0) {
                'J' => Ok(Self::Jack),
                'Q' => Ok(Self::Queen),
                'K' => Ok(Self::King),
                '7' => Ok(Self::_7),
                '8' => Ok(Self::_8),
                '9' => Ok(Self::_9),
                _ => Err(BeloteErrorKind::InvalidValue(s.to_owned())),
            }
        } else if n == 2 && s.get_char(0) == '1' && s.get_char(1) == '0' {
            Ok(Self::_10)
        } else if n == 2 && s.get_char(0) == '1' && s.get_char(1) == '1' {
            Ok(Self::As)
        } else {
            Err(BeloteErrorKind::InvalidValue(s.to_owned()))
        }
    }
}

impl core::str::FromStr for Card {
    type Err = BeloteErrorKind;

    /// A card is a suit symbol followed by a value.
    fn from_str(s: &str) -> Result<Self, Self::Err> {
        let n = s.unicode_len();
        if n < 2 {
            return Err(BeloteErrorKind::InvalidCard(s.to_owned()));
        }
        let color_str = s.substring_char(0, 1);
        let color = <Color as core::str::FromStr>::from_str(color_str)?;
        let value_str = s.substring_char(1, n);
        let value = <Value as core::str::FromStr>::from_str(value_str)?;
        Ok(Self { color, value })
    }
}

} // verus!
