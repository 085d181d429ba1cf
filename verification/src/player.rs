//! The two player identities and the functions that toggle and assign them.

use vstd::prelude::*;

use crate::board::Slot;

verus! {

/// The Player variants.
#[derive(Debug, Clone, Copy, PartialEq, Eq, Structural)]
pub enum Player {
    /// Player 1
    First,
    /// Player 2
    Second,
}

impl Player {
    /// The opposing player: toggling twice returns to the start.
    pub open spec fn spec_not(self) -> Player {
        match self {
            Player::First => Player::Second,
            Player::Second => Player::First,
        }
    }

    /// The "other player" function: a pure toggle between the two variants.
    pub fn not(self) -> (r: Player)
        ensures
            r == self.spec_not(),
    {
        match self {
            Player::First => Player::Second,
            Player::Second => Player::First,
        }
    }

    /// The piece this player stacks on the board.
    pub open spec fn spec_slot(self) -> Slot {
        match self {
            Player::First => Slot::X,
            Player::Second => Slot::O,
        }
    }

    /// The piece this player stacks on the board: never a Blank.
    pub fn slot(self) -> (r: Slot)
        ensures
            r == self.spec_slot(),
            r != Slot::Blank,
    {
        match self {
            Player::First => Slot::X,
            Player::Second => Slot::O,
        }
    }
}

/// Assigns an identity from a one-based registration count: the first
/// registrant plays First, anyone later plays Second.
impl From<u32> for Player {
    fn from(n: u32) -> (r: Self) {
        if n == 1 {
            Player::First
        } else {
            Player::Second
        }
    }
}

impl vstd::std_specs::convert::FromSpecImpl<u32> for Player {
    open spec fn obeys_from_spec() -> bool {
        true
    }

    open spec fn from_spec(n: u32) -> Player {
        if n == 1 {
            Player::First
        } else {
            Player::Second
        }
    }
}

} // verus!
