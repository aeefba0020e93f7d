//! The four players of a session, one per seat.

use vstd::prelude::*;

use crate::player::Player;
use crate::position::Position;

verus! {

#[derive(Clone, Copy, Debug, PartialEq, Eq, Structural)]
pub struct Players {
    pub north: Player,
    pub east: Player,
    pub south: Player,
    pub west: Player,
}

impl Players {
    pub open spec fn spec_player(self, position: Position) -> Player {
        match position {
            Position::North => self.north,
            Position::South => self.south,
            Position::East => self.east,
            Position::West => self.west,
        }
    }

    pub open spec fn spec_full_random(self) -> bool {
        self.north.random && self.south.random && self.east.random && self.west.random
    }

    pub fn new(north: Player, south: Player, east: Player, west: Player) -> (r: Self)
        ensures
            r == (Players { north, east, south, west }),
    {
        Self { north, east, south, west }
    }

    pub fn full_random(&self) -> (r: bool)
        ensures
            r == self.spec_full_random(),
    {
        self.north.random() && self.south.random() && self.east.random() && self.west.random()
    }

    pub fn player(&self, position: Position) -> (r: &Player)
        ensures
            *r == self.spec_player(position),
    {
        match position {
            Position::North => &self.north,
            Position::South => &self.south,
            Position::East => &self.east,
            Position::West => &self.west,
        }
    }

    /// How many of the four players decide at random.
    pub fn random_count(&self) -> (r: u64)
        ensures
            r <= 4,
            r == 4 <==> self.spec_full_random(),
            r == 0 <==> !self.north.random && !self.south.random && !self.east.random
                && !self.west.random,
    {
        let mut count: u64 = 0;
        if self.north.random() {
            count = count + 1;
        }
        if self.east.random() {
            count = count + 1;
        }
        if self.south.random() {
            count = count + 1;
        }
        if self.west.random() {
            count = count + 1;
        }
        count
    }
}

} // verus!
