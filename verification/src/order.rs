//! The seating order of a round: a rotation of the four seats. The dealer
//! rotation advances it by one seat every round.

use vstd::prelude::*;

use crate::position::Position;
use crate::rng::random_below;

verus! {

#[derive(Clone, Copy, Debug, PartialEq, Eq)]
pub struct Order {
    pub seats: [Position; 4],
}

impl Default for Order {
    /// The canonical order North, East, South, West.
    fn default() -> (r: Self)
        ensures
            r == Order::spec_default(),
            r.wf(),
    {
        Order::new_default()
    }
}

impl Order {
    /// The four seats each appear exactly once.
    pub open spec fn wf(self) -> bool {
        forall|i: int, j: int| 0 <= i < j < 4 ==> self.seats[i] != self.seats[j]
    }

    /// The canonical order North, East, South, West.
    pub open spec fn spec_default() -> Order {
        Order { seats: [Position::North, Position::East, Position::South, Position::West] }
    }

    /// `self` advanced by one seat: the first seat moves to the back.
    pub open spec fn spec_rotate(self) -> Order {
        Order { seats: [self.seats[1], self.seats[2], self.seats[3], self.seats[0]] }
    }

    pub fn new_default() -> (r: Self)
        ensures
            r == Order::spec_default(),
            r.wf(),
    {
        Order { seats: [Position::North, Position::East, Position::South, Position::West] }
    }

    /// The canonical order rotated by a random offset.
    pub fn random() -> (r: Self)
        ensures
            exists|k: nat|
                #![auto]
                k <= 3 && r == Order::spec_default().spec_rotate_n(k),
            r.wf(),
    {
        let mut order = Self::new_default();
        // one draw over five offsets, as the dealt deck is cut: an offset of
        // four leaves the order unchanged
        let offset = random_below(5) % 4;
        let mut i: usize = 0;
        while i < offset
            invariant
                i <= offset,
                offset <= 3,
                order == Order::spec_default().spec_rotate_n(i as nat),
                order.wf(),
            decreases offset - i,
        {
            order.rotate();
            proof {
                Order::spec_default().lemma_rotate_n_unrolls_helper(i as nat);
            }
            i = i + 1;
        }
        order
    }

    /// `self` advanced `n` times.
    pub open spec fn spec_rotate_n(self, n: nat) -> Order
        decreases n,
    {
        if n == 0 {
            self
        } else {
            self.spec_rotate().spec_rotate_n((n - 1) as nat)
        }
    }

    /// The seat that leads: the one right after the dealer.
    pub fn first(&self) -> (r: Position)
        ensures
            r == self.seats[0],
    {
        self.seats[0]
    }

    pub fn get(&self, i: usize) -> (r: Position)
        requires
            i < 4,
        ensures
            r == self.seats[i as int],
    {
        self.seats[i]
    }

    /// Some index of the order holds seat `p`.
    pub open spec fn has_seat(self, p: Position) -> bool {
        exists|i: int| 0 <= i <= 3 && #[trigger] self.seats[i] == p
    }

    /// Four pairwise distinct seats cover every seat.
    pub proof fn lemma_wf_covers(self)
        requires
            self.wf(),
        ensures
            forall|p: Position| #[trigger] self.has_seat(p),
    {
        assert forall|p: Position| #[trigger] self.has_seat(p) by {
            if self.seats[0] != p && self.seats[1] != p && self.seats[2] != p && self.seats[3]
                != p {
                assert(false);
            } else if self.seats[0] == p {
                assert(self.seats[0int] == p);
            } else if self.seats[1] == p {
                assert(self.seats[1int] == p);
            } else if self.seats[2] == p {
                assert(self.seats[2int] == p);
            } else {
                assert(self.seats[3int] == p);
            }
        }
    }

    /// Rotating `n` times and once more is rotating `n + 1` times.
    proof fn lemma_rotate_n_unrolls_helper(self, n: nat)
        ensures
            self.spec_rotate_n(n).spec_rotate() == self.spec_rotate_n(n + 1),
        decreases n,
    {
        assert(self.spec_rotate_n(n + 1) == self.spec_rotate().spec_rotate_n(n));
        if n > 0 {
            self.spec_rotate().lemma_rotate_n_unrolls_helper((n - 1) as nat);
        }
    }

    /// Advance the order by one seat.
    pub fn rotate(&mut self)
        ensures
            *final(self) == old(self).spec_rotate(),
            old(self).wf() ==> final(self).wf(),
    {
        let first = self.seats[0];
        self.seats[0] = self.seats[1];
        self.seats[1] = self.seats[2];
        self.seats[2] = self.seats[3];
        self.seats[3] = first;
        proof {
            assert(self.seats =~= old(self).spec_rotate().seats);
        }
    }
}

} // verus!
