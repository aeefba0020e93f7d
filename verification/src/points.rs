//! Cumulative team points for a whole session. Totals only ever grow; they
//! saturate at `u64::MAX` rather than wrap.

use vstd::prelude::*;

use crate::errors::BeloteErrorKind;
use crate::team::Team;

verus! {

#[derive(Clone, Copy, Debug, Default, PartialEq, Eq, Structural)]
pub struct Points {
    pub north_south: u64,
    pub west_east: u64,
}

/// `a + b` capped at `u64::MAX`.
pub open spec fn spec_sat_add(a: u64, b: u64) -> u64 {
    if a + b <= u64::MAX {
        (a + b) as u64
    } else {
        u64::MAX
    }
}

/// Saturating addition on `u64`, pinned to `spec_sat_add`.
pub fn sat_add(a: u64, b: u64) -> (r: u64)
    ensures
        r == spec_sat_add(a, b),
{
    if a > u64::MAX - b {
        u64::MAX
    } else {
        a + b
    }
}

/// What a round settles to, given the attack side's trick points (end-game
/// bonus included), whether belote-rebelote is active, and the pending
/// litige pool: the attack score, the defense score, and the litige pool
/// carried to the next round. `None` when the attack points exceed the
/// round's total, which no legal round produces.
///
/// The threshold is 81 (92 with belote-rebelote), the total 162 (182).
/// Zero attack points is a defense capot worth 252; below the threshold the
/// attack is in ("dedans") and the defense scores 182; exactly the
/// threshold is a litige: nobody scores and the threshold joins the pool;
/// above it the attack scores its points and the defense the rest; the full
/// total is an attack capot worth 252. The pending pool goes to whoever
/// scores and is emptied, except in a litige, where it keeps growing.
pub open spec fn spec_score_round(attack_points: u64, belote: bool, litige: u64) -> Option<
    (u64, u64, u64),
> {
    let contract: u64 = if belote {
        92
    } else {
        81
    };
    let total: u64 = if belote {
        182
    } else {
        162
    };
    if attack_points == 0 {
        Some((0u64, spec_sat_add(252, litige), 0u64))
    } else if attack_points < contract {
        Some((0u64, spec_sat_add(182, litige), 0u64))
    } else if attack_points == contract {
        Some((0u64, 0u64, spec_sat_add(litige, contract)))
    } else if attack_points < total {
        Some((spec_sat_add(attack_points, litige), (total - attack_points) as u64, 0u64))
    } else if attack_points == total {
        Some((spec_sat_add(252, litige), 0u64, 0u64))
    } else {
        None
    }
}

/// Settle a round, pinned to `spec_score_round`; attack points beyond the
/// round's total are an invariant violation.
pub fn score_round(attack_points: u64, belote: bool, litige: u64) -> (r: Result<
    (u64, u64, u64),
    BeloteErrorKind,
>)
    ensures
        r.is_ok() <==> spec_score_round(attack_points, belote, litige) is Some,
        r matches Ok(t) ==> spec_score_round(attack_points, belote, litige) == Some(t),
{
    let contract: u64 = if belote {
        92
    } else {
        81
    };
    let total: u64 = if belote {
        182
    } else {
        162
    };
    if attack_points == 0 {
        Ok((0, sat_add(252, litige), 0))
    } else if attack_points < contract {
        Ok((0, sat_add(182, litige), 0))
    } else if attack_points == contract {
        Ok((0, 0, sat_add(litige, contract)))
    } else if attack_points < total {
        Ok((sat_add(attack_points, litige), total - attack_points, 0))
    } else if attack_points == total {
        Ok((sat_add(252, litige), 0, 0))
    } else {
        Err(BeloteErrorKind::InvalidCase("bad points number".to_owned()))
    }
}

/// How one round settles the cumulative totals: the belote-rebelote team,
/// if any, gets its flat +20, then `spec_score_round` on the attack's
/// total (end-game bonus included) and the pending litige pool gives the
/// attack and defense scores and the pool carried on.
pub open spec fn spec_round_settled(
    before: Points,
    litige_before: u64,
    taker_team: Team,
    attack_total: u64,
    belote_team: Option<Team>,
    points_after: Points,
    litige_after: u64,
) -> bool {
    let sc = spec_score_round(attack_total, belote_team is Some, litige_before);
    sc matches Some(t) && {
        let after_belote = match belote_team {
            Some(team) => before.spec_add(team, 20),
            None => before,
        };
        &&& points_after == after_belote.spec_add(taker_team, t.0).spec_add(
            taker_team.spec_other(),
            t.1,
        )
        &&& litige_after == t.2
    }
}

impl Points {
    pub open spec fn spec_get(self, team: Team) -> u64 {
        match team {
            Team::NorthSouth => self.north_south,
            Team::WestEast => self.west_east,
        }
    }

    /// `self` with `points` added to one team's total, saturating.
    pub open spec fn spec_add(self, team: Team, points: u64) -> Points {
        match team {
            Team::NorthSouth => Points {
                north_south: spec_sat_add(self.north_south, points),
                ..self
            },
            Team::WestEast => Points { west_east: spec_sat_add(self.west_east, points), ..self },
        }
    }

    pub fn new() -> (r: Self)
        ensures
            r == (Points { north_south: 0u64, west_east: 0u64 }),
    {
        Points { north_south: 0, west_east: 0 }
    }

    pub fn get(&self, team: Team) -> (r: u64)
        ensures
            r == self.spec_get(team),
    {
        match team {
            Team::NorthSouth => self.north_south,
            Team::WestEast => self.west_east,
        }
    }

    /// Add `points` to one team's total, saturating; the other team's total
    /// is untouched.
    pub fn add(&mut self, team: Team, points: u64)
        ensures
            *final(self) == old(self).spec_add(team, points),
            final(self).spec_get(team) == spec_sat_add(old(self).spec_get(team), points),
            final(self).spec_get(team.spec_other()) == old(self).spec_get(team.spec_other()),
    {
        match team {
            Team::NorthSouth => {
                self.north_south = sat_add(self.north_south, points);
            },
            Team::WestEast => {
                self.west_east = sat_add(self.west_east, points);
            },
        }
    }
}

} // verus!
