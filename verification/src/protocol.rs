//! The wire-level request/response vocabulary exchanged between the peers
//! and the authority.

use vstd::prelude::*;

use crate::board::Move;
use crate::player::Player;

verus! {

/// A Player's turn: one submitted move plus the submitting player's
/// identity.
#[derive(Debug, Clone, Copy, PartialEq, Eq, Structural)]
pub struct Turn {
    pub source: Player,
    pub mov: Move,
}

/// Requests the server receives from clients.
#[derive(Debug, Clone, Copy, PartialEq, Eq, Structural)]
pub enum Request {
    /// A client requests to join the game.
    Join,
    /// A client submits a `Turn` action.
    Turn(Turn),
}

/// The server's responses to client requests.
#[derive(Debug, Clone, Copy, PartialEq, Eq, Structural)]
pub enum Response {
    /// There is enough capacity in the game. Tell the client which
    /// Player they are and the size of the board.
    Welcome { player: Player, height: usize, width: usize },
    /// There are enough Players for the game to start.
    GameStart,
    /// There is not enough capacity in the game.
    GameFull,
    /// A Player attempted to act out of turn.
    NotYourTurn,
    /// Server sends the current Player's Turn to the other Player.
    Turn(Turn),
    /// Server acknowledges a Player's proposed Turn.
    Acknowledged,
    /// The other Player disconnected.
    PlayerDisconnected,
    /// An internal server error occurred.
    ServerError,
}

} // verus!
