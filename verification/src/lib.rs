//! A networked four-in-a-row board game in which pieces are pushed into a
//! row from its left or right edge.
//!
//! The crate provides the game board with its gravity-style insertion and
//! bounded win scan, the wire-protocol vocabulary, the server-side shared
//! game state that arbitrates turn order between two peers, and the
//! client-side mirrored session.

use vstd::prelude::*;

pub mod board;
pub mod error;
pub mod player;
pub mod protocol;
pub mod session;
pub mod state;

verus! {

use crate::error::GameError;
use crate::player::Player;
use crate::protocol::Turn;
use crate::session::Session;

/// Creates a fresh local session on the default 7x7 board, First to move.
pub fn init() -> (r: Result<Session, GameError>)
    ensures
        r matches Ok(s) && s.wf() && s.board.height == 7 && s.board.width == 7 && s.player
            == Player::First && s.current_player == Player::First && s.turns@ =~= Seq::<
            Turn,
        >::empty(),
{
    Ok(Session::new(Player::First, 7, 7))
}

} // verus!
