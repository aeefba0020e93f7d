//! The session wrapper: the four players and the cumulative team points,
//! around the payload of the current round phase.

use vstd::prelude::*;

use crate::players::Players;
use crate::points::{spec_sat_add, Points};
use crate::team::Team;

verus! {

#[derive(Debug)]
pub struct Game<State> {
    pub players: Players,
    pub points: Points,
    pub state: State,
}

impl<State> Game<State> {
    pub fn new(players: Players, points: Points, state: State) -> (r: Self)
        ensures
            r.players == players,
            r.points == points,
            r.state == state,
    {
        Self { players, points, state }
    }

    pub fn into(self) -> (r: State)
        ensures
            r == self.state,
    {
        self.state
    }

    pub fn is_full_random(&self) -> (r: bool)
        ensures
            r == self.players.spec_full_random(),
    {
        self.players.full_random()
    }

    pub fn points(&self) -> (r: Points)
        ensures
            r == self.points,
    {
        self.points
    }

    /// Add `points` to one team's cumulative total, saturating.
    pub fn add_points(&mut self, team: Team, points: u64)
        ensures
            final(self).points == old(self).points.spec_add(team, points),
            final(self).points.spec_get(team) == spec_sat_add(
                old(self).points.spec_get(team),
                points,
            ),
            final(self).points.spec_get(team.spec_other()) == old(self).points.spec_get(
                team.spec_other(),
            ),
            final(self).players == old(self).players,
            final(self).state == old(self).state,
    {
        self.points.add(team, points);
    }

    pub fn players(&self) -> (r: Players)
        ensures
            r == self.players,
    {
        self.players
    }
}

} // verus!
