//! The four seats in their fixed cyclic adjacency, and the team partition.

use vstd::prelude::*;

use crate::team::Team;

verus! {

#[derive(Clone, Copy, Debug, PartialEq, Eq, Structural)]
pub enum Position {
    North,
    East,
    South,
    West,
}

impl Position {
    pub open spec fn spec_team(self) -> Team {
        match self {
            Position::East | Position::West => Team::WestEast,
            Position::North | Position::South => Team::NorthSouth,
        }
    }

    pub fn team(&self) -> (r: Team)
        ensures
            r == self.spec_team(),
    {
        match self {
            Self::East | Self::West => Team::WestEast,
            Self::North | Self::South => Team::NorthSouth,
        }
    }

    /// The seat that plays after this one.
    pub open spec fn spec_next(self) -> Position {
        match self {
            Position::East => Position::South,
            Position::West => Position::North,
            Position::North => Position::East,
            Position::South => Position::West,
        }
    }

    #[must_use]
    pub fn next(&self) -> (r: Self)
        ensures
            r == self.spec_next(),
    {
        match self {
            Self::East => Self::South,
            Self::West => Self::North,
            Self::North => Self::East,
            Self::South => Self::West,
        }
    }
}

} // verus!
