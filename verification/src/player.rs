//! The four seats at the table.

use vstd::prelude::*;

verus! {

/// One of the four players, by seat `0..=3` in turn order.
#[derive(Clone, Copy, Debug, PartialEq, Eq, Structural, PartialOrd, Ord, Hash)]
pub struct Player {
    seat: u8,
}

impl Player {
    #[verifier::type_invariant]
    closed spec fn inv(self) -> bool {
        self.seat < 4
    }

    /// The seat of this player.
    pub closed spec fn index(self) -> int {
        self.seat as int
    }

    /// The player at seat `seat`.
    pub closed spec fn of_index(seat: int) -> Player {
        Player { seat: seat as u8 }
    }

    /// The player at a seat has that seat.
    pub proof fn lemma_of_index(seat: int)
        requires
            0 <= seat <= 3,
        ensures
            Self::of_index(seat).index() == seat,
    {
    }

    /// A player is the player at its seat.
    pub proof fn lemma_index_of(self)
        ensures
            Self::of_index(self.index()) == self,
            0 <= self.index(),
    {
    }

    /// The player at seat `seat`.
    pub fn new(seat: u8) -> (r: Player)
        requires
            seat < 4,
        ensures
            r.index() == seat,
            r == Self::of_index(seat as int),
    {
        Player { seat }
    }

    /// The seat as an index.
    pub fn to_usize(self) -> (r: usize)
        ensures
            r == self.index(),
            r < 4,
    {
        proof {
            use_type_invariant(&self);
        }
        self.seat as usize
    }

    /// The seat as a number.
    pub fn to_u8(self) -> (r: u8)
        ensures
            r == self.index(),
            r < 4,
    {
        proof {
            use_type_invariant(&self);
        }
        self.seat
    }

    /// The player `other.index()` seats after this one, going round the table.
    pub fn wrapping_add(self, other: Player) -> (r: Player)
        ensures
            r.index() == (self.index() + other.index()) % 4,
            r == Self::of_index((self.index() + other.index()) % 4),
    {
        proof {
            use_type_invariant(&self);
            use_type_invariant(&other);
        }
        Player { seat: (self.seat + other.seat) % 4 }
    }
}

} // verus!
