//! The server-side shared game state: the single authority that arbitrates
//! turn order, owns the authoritative board and the append-only turn
//! history, and computes the fan-out of every accepted event.
//!
//! All mutating operations are single read-modify-write steps over the
//! whole record; the caller performs the returned fan-out afterwards,
//! outside of any exclusive-access scope.

use vstd::prelude::*;

use crate::board::{blanks, lemma_blanks_all_blank, row_full, Board, Side, Slot};
use crate::error::GameError;
use crate::player::Player;
use crate::protocol::{Response, Turn};

verus! {

/// Which player takes the turn with the given zero-based index: turns
/// alternate, and First begins.
pub open spec fn player_for_count(n: int) -> Player {
    if n % 2 == 0 {
        Player::First
    } else {
        Player::Second
    }
}

/// Keeps the registry entries a message fans out to: every registered
/// peer except the sender.
pub open spec fn keeps_from(sender: u64) -> spec_fn((u64, Player)) -> bool {
    |e: (u64, Player)| e.0 != sender
}

/// Pairs a registry entry's address with the message it is to receive.
pub open spec fn to_entry(message: Response) -> spec_fn((u64, Player)) -> (u64, Response) {
    |e: (u64, Player)| (e.0, message)
}

/// Filtering distributes over appending one element.
proof fn lemma_filter_push<A>(s: Seq<A>, x: A, pred: spec_fn(A) -> bool)
    ensures
        s.push(x).filter(pred) == if pred(x) {
            s.filter(pred).push(x)
        } else {
            s.filter(pred)
        },
{
    reveal(Seq::filter);
    assert(s.push(x).drop_last() =~= s);
}

/// A filter whose predicate holds of every element keeps the sequence.
proof fn lemma_filter_all<A>(s: Seq<A>, pred: spec_fn(A) -> bool)
    requires
        forall|i: int| 0 <= i < s.len() ==> pred(#[trigger] s[i]),
    ensures
        s.filter(pred) == s,
    decreases s.len(),
{
    reveal(Seq::filter);
    if s.len() > 0 {
        lemma_filter_all(s.drop_last(), pred);
        assert(s.drop_last().push(s.last()) =~= s);
    }
}

/// Data and types that are shared between all peers playing the game.
pub struct Shared {
    /// Registered peers: each address with the Player identity assigned
    /// to it, in registration order.
    pub players: Vec<(u64, Player)>,
    /// Indicates which Player's turn it is.
    pub current_player: Player,
    /// The Turns taken by the Players over the course of a game.
    pub turns: Vec<Turn>,
    /// The authoritative board: a move's legality is re-checked against it
    /// before the move is accepted.
    pub board: Board,
    /// The height of the game board.
    pub height: usize,
    /// The width of the game board.
    pub width: usize,
}

impl Shared {
    /// The address is in the peer registry.
    pub open spec fn registered(&self, addr: u64) -> bool {
        exists|i: int| 0 <= i < self.players@.len() && (#[trigger] self.players@[i]).0 == addr
    }

    /// The record's invariants: the board has the declared dimensions; at
    /// most two peers are registered, under distinct addresses; the current
    /// player is the one whose turn is next, so the history's length and
    /// the current player always agree on parity; the history's length plus
    /// the count of remaining Blank slots equals height times width; and
    /// the recorded turn sources alternate, First beginning.
    pub open spec fn wf(&self) -> bool {
        &&& self.board.wf()
        &&& self.board.height == self.height
        &&& self.board.width == self.width
        &&& self.players@.len() <= 2
        &&& forall|i: int, j: int|
            0 <= i < j < self.players@.len() ==> (#[trigger] self.players@[i]).0 != (
            #[trigger] self.players@[j]).0
        &&& self.current_player == player_for_count(self.turns@.len() as int)
        &&& self.turns@.len() + blanks(self.board@) == self.height * self.width
        &&& forall|i: int|
            0 <= i < self.turns@.len() ==> (#[trigger] self.turns@[i]).source == player_for_count(
                i,
            )
    }

    /// Attempt to create a new `Shared` instance: an all-Blank board of the
    /// given dimensions, no peers, no history, First to move.
    pub fn try_new(height: usize, width: usize) -> (r: Result<Shared, GameError>)
        requires
            height * width <= usize::MAX,
        ensures
            r matches Ok(s) && s.wf() && s.height == height && s.width == width && s.players@
                =~= Seq::<(u64, Player)>::empty() && s.turns@ =~= Seq::<Turn>::empty()
                && s.current_player == Player::First && (forall|i: int, j: int|
                0 <= i < height && 0 <= j < width ==> s.board@[i][j] == Slot::Blank),
    {
        let board = Board::new(height, width);
        proof {
            lemma_blanks_all_blank(board@, height as int, width as int);
        }
        Ok(
            Shared {
                players: Vec::new(),
                current_player: Player::First,
                turns: Vec::new(),
                board,
                height,
                width,
            },
        )
    }

    /// Send a message to every registered peer except the sender: computes
    /// the fan-out list; the caller performs the enqueueing.
    pub fn broadcast(&self, sender: u64, message: Response) -> (r: Vec<(u64, Response)>)
        ensures
            r@ == self.players@.filter(keeps_from(sender)).map_values(to_entry(message)),
    {
        let mut out: Vec<(u64, Response)> = Vec::new();
        let mut i: usize = 0;
        while i < self.players.len()
            invariant
                i <= self.players@.len(),
                out@ == self.players@.take(i as int).filter(keeps_from(sender)).map_values(
                    to_entry(message),
                ),
            decreases self.players@.len() - i,
        {
            let (a, _assigned) = self.players[i];
            proof {
                assert(self.players@.take(i + 1) =~= self.players@.take(i as int).push(
                    self.players@[i as int],
                ));
                lemma_filter_push(
                    self.players@.take(i as int),
                    self.players@[i as int],
                    keeps_from(sender),
                );
                if a != sender {
                    assert(self.players@.take(i as int).filter(keeps_from(sender)).push(
                        self.players@[i as int],
                    ).map_values(to_entry(message)) =~= out@.push((a, message)));
                }
            }
            if a != sender {
                out.push((a, message));
            }
            i += 1;
        }
        proof {
            assert(self.players@.take(self.players@.len() as int) =~= self.players@);
        }
        out
    }

    /// First registrant becomes First, the second becomes Second; a third
    /// is rejected without mutation. Registering an address a second time
    /// replaces its entry. On success the assigned identity and the board
    /// dimensions are returned, for the Welcome sent to the new peer alone.
    pub fn register(&mut self, addr: u64) -> (r: Result<(Player, usize, usize), GameError>)
        requires
            old(self).wf(),
        ensures
            final(self).wf(),
            final(self).board == old(self).board,
            final(self).turns == old(self).turns,
            final(self).current_player == old(self).current_player,
            final(self).height == old(self).height,
            final(self).width == old(self).width,
            old(self).players@.len() >= 2 ==> r == Err::<(Player, usize, usize), GameError>(
                GameError::GameFull,
            ) && *final(self) == *old(self),
            old(self).players@.len() < 2 ==> ({
                let assigned = if old(self).players@.len() == 0 {
                    Player::First
                } else {
                    Player::Second
                };
                &&& r == Ok::<(Player, usize, usize), GameError>(
                    (assigned, old(self).height, old(self).width),
                )
                &&& !old(self).registered(addr) ==> final(self).players@ == old(
                    self,
                ).players@.push((addr, assigned))
                &&& old(self).registered(addr) ==> exists|i: int|
                    0 <= i < old(self).players@.len() && (#[trigger] old(self).players@[i]).0
                        == addr && final(self).players@ == old(self).players@.update(
                        i,
                        (addr, assigned),
                    )
            }),
    {
        if self.players.len() >= 2 {
            return Err(GameError::GameFull);
        }
        let assigned = if self.players.len() == 0 {
            Player::First
        } else {
            Player::Second
        };
        let mut i: usize = 0;
        while i < self.players.len()
            invariant
                self == old(self),
                self.wf(),
                self.players@.len() < 2,
                assigned == if self.players@.len() == 0 {
                    Player::First
                } else {
                    Player::Second
                },
                i <= self.players@.len(),
                forall|k: int| 0 <= k < i ==> (#[trigger] self.players@[k]).0 != addr,
            decreases self.players@.len() - i,
        {
            if self.players[i].0 == addr {
                self.players.set(i, (addr, assigned));
                proof {
                    assert forall|k: int|
                        0 <= k < self.players@.len() implies (#[trigger] self.players@[k]).0 == old(
                        self,
                    ).players@[k].0 by {
                        if k != i {
                            assert(self.players@[k] == old(self).players@[k]);
                        }
                    }
                }
                return Ok((assigned, self.height, self.width));
            }
            i += 1;
        }
        self.players.push((addr, assigned));
        Ok((assigned, self.height, self.width))
    }

    /// On the second registration, tells both peers the game starts; any
    /// other peer count starts nothing.
    pub fn start_when_full(&self) -> (r: Vec<(u64, Response)>)
        ensures
            self.players@.len() == 2 ==> r@ == self.players@.map_values(
                to_entry(Response::GameStart),
            ),
            self.players@.len() != 2 ==> r@ =~= Seq::<(u64, Response)>::empty(),
    {
        if self.players.len() == 2 {
            let mut out: Vec<(u64, Response)> = Vec::new();
            out.push((self.players[0].0, Response::GameStart));
            out.push((self.players[1].0, Response::GameStart));
            proof {
                assert(out@ =~= self.players@.map_values(to_entry(Response::GameStart)));
            }
            out
        } else {
            Vec::new()
        }
    }

    /// The sole decision point for turn legality. A submission is accepted
    /// exactly when its source is the current player and its move fits the
    /// board: then the piece is placed, the turn is appended to the
    /// history, the current player flips, and the turn is relayed to every
    /// registered peer but the submitter. Any rejection leaves the record
    /// untouched and relays nothing.
    pub fn submit_turn(&mut self, addr: u64, turn: Turn) -> (r: (
        Result<(usize, usize), GameError>,
        Vec<(u64, Response)>,
    ))
        requires
            old(self).wf(),
        ensures
            final(self).wf(),
            final(self).players == old(self).players,
            final(self).height == old(self).height,
            final(self).width == old(self).width,
            turn.source != old(self).current_player ==> r.0 == Err::<(usize, usize), GameError>(
                GameError::NotYourTurn,
            ) && *final(self) == *old(self) && r.1@ =~= Seq::<(u64, Response)>::empty(),
            turn.source == old(self).current_player && turn.mov.row >= old(self).height ==> r.0
                == Err::<(usize, usize), GameError>(GameError::NonexistentRow) && *final(self)
                == *old(self) && r.1@ =~= Seq::<(u64, Response)>::empty(),
            turn.source == old(self).current_player && turn.mov.row < old(self).height && row_full(
                old(self).board@[turn.mov.row as int],
            ) ==> r.0 == Err::<(usize, usize), GameError>(GameError::FullRow) && *final(self)
                == *old(self) && r.1@ =~= Seq::<(u64, Response)>::empty(),
            turn.source == old(self).current_player && turn.mov.row < old(self).height && !row_full(
                old(self).board@[turn.mov.row as int],
            ) ==> ({
                let row = turn.mov.row as int;
                &&& r.0 matches Ok(coord)
                &&& coord.0 == turn.mov.row
                &&& coord.1 < old(self).width
                &&& old(self).board@[row][coord.1 as int] == Slot::Blank
                &&& (turn.mov.side == Side::Left ==> forall|j: int|
                    0 <= j < coord.1 ==> old(self).board@[row][j] != Slot::Blank)
                &&& (turn.mov.side == Side::Right ==> forall|j: int|
                    coord.1 < j < old(self).width ==> old(self).board@[row][j] != Slot::Blank)
                &&& final(self).board@ == old(self).board@.update(
                    row,
                    old(self).board@[row].update(coord.1 as int, turn.source.spec_slot()),
                )
                &&& final(self).turns@ == old(self).turns@.push(turn)
                &&& final(self).current_player == old(self).current_player.spec_not()
                &&& r.1@ == old(self).players@.filter(keeps_from(addr)).map_values(
                    to_entry(Response::Turn(turn)),
                )
            }),
    {
        if turn.source != self.current_player {
            return (Err(GameError::NotYourTurn), Vec::new());
        }
        let slot = turn.source.slot();
        let res = match turn.mov.side {
            Side::Left => self.board.insert_from_left(turn.mov.row, slot),
            Side::Right => self.board.insert_from_right(turn.mov.row, slot),
        };
        match res {
            Err(e) => (Err(e), Vec::new()),
            Ok((row, col)) => {
                proof {
                    crate::board::lemma_blanks_update(
                        old(self).board@,
                        row as int,
                        col as int,
                        slot,
                    );
                }
                self.turns.push(turn);
                self.current_player = self.current_player.not();
                let relays = self.broadcast(addr, Response::Turn(turn));
                (Ok((row, col)), relays)
            },
        }
    }

    /// Removes the peer registered under the address, notifying the
    /// remaining peer, if any, that their opponent left; removing an
    /// unregistered address is a no-op and notifies nobody. The history
    /// and the current player are untouched: there is no rematch path.
    pub fn unregister(&mut self, addr: u64) -> (r: Vec<(u64, Response)>)
        requires
            old(self).wf(),
        ensures
            final(self).wf(),
            final(self).board == old(self).board,
            final(self).turns == old(self).turns,
            final(self).current_player == old(self).current_player,
            final(self).height == old(self).height,
            final(self).width == old(self).width,
            !old(self).registered(addr) ==> *final(self) == *old(self) && r@ =~= Seq::<
                (u64, Response),
            >::empty(),
            old(self).registered(addr) ==> ({
                &&& exists|i: int|
                    0 <= i < old(self).players@.len() && (#[trigger] old(self).players@[i]).0
                        == addr && final(self).players@ == old(self).players@.remove(i)
                &&& !final(self).registered(addr)
                &&& r@ == final(self).players@.map_values(to_entry(Response::PlayerDisconnected))
                &&& forall|k: int| 0 <= k < r@.len() ==> (#[trigger] r@[k]).0 != addr
            }),
    {
        let mut i: usize = 0;
        while i < self.players.len()
            invariant
                self == old(self),
                self.wf(),
                i <= self.players@.len(),
                forall|k: int| 0 <= k < i ==> (#[trigger] self.players@[k]).0 != addr,
            decreases self.players@.len() - i,
        {
            if self.players[i].0 == addr {
                self.players.remove(i);
                proof {
                    old(self).players@.remove_ensures(i as int);
                    assert forall|k: int|
                        0 <= k < self.players@.len() implies (#[trigger] self.players@[k]).0
                        != addr by {
                        if k < i {
                            assert(self.players@[k] == old(self).players@[k]);
                        } else {
                            assert(self.players@[k] == old(self).players@[k + 1]);
                        }
                    }
                    lemma_filter_all(self.players@, keeps_from(addr));
                }
                let out = self.broadcast(addr, Response::PlayerDisconnected);
                return out;
            }
            i += 1;
        }
        Vec::new()
    }
}

/// After N alternating accepted turns the current player is First exactly
/// when N is even: a well-formed record's current player is determined by
/// the parity of its history's length alone.
pub proof fn lemma_current_player_parity(s: &Shared)
    requires
        s.wf(),
    ensures
        s.turns@.len() % 2 == 0 ==> s.current_player == Player::First,
        s.turns@.len() % 2 == 1 ==> s.current_player == Player::Second,
{
}

/// The response returned to the submitting peer alone, asymmetric from the
/// relay the opponent receives: Acknowledged on acceptance, NotYourTurn for
/// an out-of-turn submission. The wire vocabulary has no variant for an
/// in-turn but board-illegal move, so such a rejection is answered
/// ServerError.
pub fn response_to_submitter(res: &Result<(usize, usize), GameError>) -> (r: Response)
    ensures
        res matches Ok(_) ==> r == Response::Acknowledged,
        res == Err::<(usize, usize), GameError>(GameError::NotYourTurn) ==> r
            == Response::NotYourTurn,
        (res matches Err(e) && e != GameError::NotYourTurn) ==> r == Response::ServerError,
{
    match res {
        Ok(_) => Response::Acknowledged,
        Err(GameError::NotYourTurn) => Response::NotYourTurn,
        Err(_) => Response::ServerError,
    }
}

} // verus!
