//! A seat's answer in the second bidding pass: one of the four colors, or a
//! pass.

use vstd::prelude::*;
use vstd::string::StrSliceExecFns;

use crate::card::Color;
use crate::errors::BeloteErrorKind;

verus! {

#[derive(Clone, Copy, Debug, PartialEq, Eq, Structural)]
pub enum Contract {
    Heart,
    Spade,
    Diamond,
    Club,
    Pass,
}

impl Contract {
    pub open spec fn spec_color(self) -> Option<Color> {
        match self {
            Contract::Club => Some(Color::Club),
            Contract::Diamond => Some(Color::Diamond),
            Contract::Heart => Some(Color::Heart),
            Contract::Spade => Some(Color::Spade),
            Contract::Pass => None,
        }
    }

    pub fn color(&self) -> (r: Option<Color>)
        ensures
            r == self.spec_color(),
    {
        match self {
            Self::Club => Some(Color::Club),
            Self::Diamond => Some(Color::Diamond),
            Self::Heart => Some(Color::Heart),
            Self::Spade => Some(Color::Spade),
            Self::Pass => None,
        }
    }
}

impl core::str::FromStr for Contract {
    type Err = BeloteErrorKind;

    /// A contract is the word `Pass` or a suit symbol.
    fn from_str(s: &str) -> Result<Self, Self::Err> {
        if s.unicode_len() == 4 && s.get_char(0) == 'P' && s.get_char(1) == 'a' && s.get_char(2)
            == 's' && s.get_char(3) == 's' {
            Ok(Self::Pass)
        } else {
            match <Color as core::str::FromStr>::from_str(s)? {
                Color::Club => Ok(Self::Club),
                Color::Diamond => Ok(Self::Diamond),
                Color::Heart => Ok(Self::Heart),
                Color::Spade => Ok(Self::Spade),
            }
        }
    }
}

} // verus!
