//! The typed rejections that the game's rules can produce.

use vstd::prelude::*;

verus! {

/// The error types that may arise while the game is running.
#[derive(Debug, Clone, Copy, PartialEq, Eq, Structural)]
pub enum GameError {
    /// Attempted to insert into a full row.
    FullRow,
    /// Attempted to fetch a non-existent row.
    NonexistentRow,
    /// A player specified a move in an invalid format.
    InvalidMoveFormat,
    /// A player specified a side that is not valid.
    InvalidSide,
    /// Can't join a game because it is already at capacity.
    GameFull,
    /// A Player attempted to take a turn when it isn't their turn.
    NotYourTurn,
}

} // verus!
