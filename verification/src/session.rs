//! The client-side mirrored session: a local Board replica, current player
//! and turn log fed only by turns the authority has already decided — the
//! client's own move once it was acknowledged, and a relayed opponent move
//! immediately on arrival.

use vstd::prelude::*;

use crate::board::{
    blanks, lemma_blanks_all_blank, lemma_blanks_update, row_full, wins_at, Board, Side, Slot,
};
use crate::error::GameError;
use crate::player::Player;
use crate::protocol::Turn;

verus! {

/// The client's view of the game.
pub struct Session {
    /// The Board that the game is played on.
    pub board: Board,
    /// The Player on this client.
    pub player: Player,
    /// The Player whose turn it currently is.
    pub current_player: Player,
    /// The turns that have occurred over the course of the game.
    pub turns: Vec<Turn>,
}

/// How one accepted turn takes the replica from `pre` to `post`, with `r`
/// the reported outcome: the source's piece fills the slot in the move's
/// row at `col`, the first Blank from the chosen edge; the turn is appended
/// to the log; a win by the source's piece through the filled slot is
/// reported, and the current player flips exactly when none is.
pub open spec fn turn_applied(
    pre: Session,
    post: Session,
    turn: Turn,
    r: Result<Option<Slot>, GameError>,
    col: int,
) -> bool {
    let row = turn.mov.row as int;
    let s = turn.source.spec_slot();
    &&& 0 <= col < pre.board.width
    &&& pre.board@[row][col] == Slot::Blank
    &&& (turn.mov.side == Side::Left ==> forall|j: int|
        0 <= j < col ==> pre.board@[row][j] != Slot::Blank)
    &&& (turn.mov.side == Side::Right ==> forall|j: int|
        col < j < pre.board.width ==> pre.board@[row][j] != Slot::Blank)
    &&& post.board@ == pre.board@.update(row, pre.board@[row].update(col, s))
    &&& post.turns@ == pre.turns@.push(turn)
    &&& r == Ok::<Option<Slot>, GameError>(
        if wins_at(post.board@, row, col, s) {
            Some(s)
        } else {
            None
        },
    )
    &&& post.current_player == (if wins_at(post.board@, row, col, s) {
        pre.current_player
    } else {
        pre.current_player.spec_not()
    })
}

impl Session {
    /// The board is well-formed and every applied turn filled exactly one
    /// slot: the log's length plus the remaining Blank count is the cell
    /// count.
    pub open spec fn wf(&self) -> bool {
        &&& self.board.wf()
        &&& self.turns@.len() + blanks(self.board@) == self.board.height * self.board.width
    }

    /// Initialize a new Session with a Board of the specified dimensions,
    /// First to move.
    pub fn new(player: Player, height: usize, width: usize) -> (s: Session)
        requires
            height * width <= usize::MAX,
        ensures
            s.wf(),
            s.player == player,
            s.current_player == Player::First,
            s.board.height == height,
            s.board.width == width,
            s.turns@ =~= Seq::<Turn>::empty(),
            forall|i: int, j: int|
                0 <= i < height && 0 <= j < width ==> s.board@[i][j] == Slot::Blank,
    {
        let board = Board::new(height, width);
        proof {
            lemma_blanks_all_blank(board@, height as int, width as int);
        }
        Session { board, turns: Vec::new(), player, current_player: Player::First }
    }

    /// Apply one decided turn to the replica: place the source's piece,
    /// append the turn to the log, and report a win by the source's piece
    /// if it now completes four in a row through the freshly filled slot.
    /// The current player flips exactly when no win is reported. A
    /// placement the board rejects leaves the session untouched.
    pub fn apply_turn(&mut self, turn: Turn) -> (r: Result<Option<Slot>, GameError>)
        requires
            old(self).wf(),
        ensures
            final(self).wf(),
            final(self).player == old(self).player,
            final(self).board.height == old(self).board.height,
            final(self).board.width == old(self).board.width,
            turn.mov.row >= old(self).board.height ==> r == Err::<Option<Slot>, GameError>(
                GameError::NonexistentRow,
            ) && *final(self) == *old(self),
            turn.mov.row < old(self).board.height && row_full(
                old(self).board@[turn.mov.row as int],
            ) ==> r == Err::<Option<Slot>, GameError>(GameError::FullRow) && *final(self) == *old(
                self,
            ),
            turn.mov.row < old(self).board.height && !row_full(
                old(self).board@[turn.mov.row as int],
            ) ==> exists|col: int| #[trigger] turn_applied(*old(self), *final(self), turn, r, col),
    {
        let slot = turn.source.slot();
        let res = match turn.mov.side {
            Side::Left => self.board.insert_from_left(turn.mov.row, slot),
            Side::Right => self.board.insert_from_right(turn.mov.row, slot),
        };
        match res {
            Err(e) => Err(e),
            Ok((row, col)) => {
                proof {
                    lemma_blanks_update(old(self).board@, row as int, col as int, slot);
                }
                self.turns.push(turn);
                let outcome = match self.board.is_game_over(row, col, &slot) {
                    Ok(outcome) => outcome,
                    Err(e) => {
                        return Err(e);
                    },
                };
                match outcome {
                    Some(winner) => {
                        let r: Result<Option<Slot>, GameError> = Ok(Some(winner));
                        proof {
                            assert(turn_applied(*old(self), *self, turn, r, col as int));
                        }
                        r
                    },
                    None => {
                        self.current_player = self.current_player.not();
                        let r: Result<Option<Slot>, GameError> = Ok(None);
                        proof {
                            assert(turn_applied(*old(self), *self, turn, r, col as int));
                        }
                        r
                    },
                }
            },
        }
    }

    /// The game ended in a tie when the whole board has been filled:
    /// detected from the move count alone, with no board scan.
    pub fn is_tie(&self) -> (r: bool)
        requires
            self.wf(),
        ensures
            r == (self.turns@.len() == self.board.height * self.board.width),
    {
        self.turns.len() == self.board.height * self.board.width
    }
}

/// A well-formed session's tie test, though it compares only the move
/// count, holds exactly when no Blank slot remains on the board.
pub proof fn lemma_tie_is_full_board(s: &Session)
    requires
        s.wf(),
    ensures
        (s.turns@.len() == s.board.height * s.board.width) <==> blanks(s.board@) == 0,
{
}

} // verus!
