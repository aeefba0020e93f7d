//! The two fixed teams: North+South against West+East.

use vstd::prelude::*;

verus! {

#[derive(Clone, Copy, Debug, PartialEq, Eq, Structural)]
pub enum Team {
    NorthSouth,
    WestEast,
}

impl Team {
    #[must_use]
    pub fn other(&self) -> (r: Self)
        ensures
            r == self.spec_other(),
    {
        match self {
            Self::NorthSouth => Self::WestEast,
            Self::WestEast => Self::NorthSouth,
        }
    }

    pub open spec fn spec_other(self) -> Team {
        match self {
            Team::NorthSouth => Team::WestEast,
            Team::WestEast => Team::NorthSouth,
        }
    }
}

} // verus!
