//! The game board: a fixed-size grid of slots with gravity-style insertion
//! from either edge of a row, and a bounded directional win scan.

use vstd::prelude::*;
use vstd::string::StrSliceExecFns;

use crate::error::GameError;

verus! {

/// The possible variants of a single slot in a Board.
#[derive(Debug, Clone, Copy, PartialEq, Eq, Structural)]
pub enum Slot {
    /// A blank slot owned by neither player.
    Blank,
    /// A slot owned by the player playing X.
    X,
    /// A slot owned by the player playing O.
    O,
}

/// The sides from which Players may choose to insert a slot.
#[derive(Debug, Clone, Copy, PartialEq, Eq, Structural)]
pub enum Side {
    Left,
    Right,
}

/// Represents a Player's move: the row to insert into and the edge
/// the piece is pushed in from.
#[derive(Debug, Clone, Copy, PartialEq, Eq, Structural)]
pub struct Move {
    pub side: Side,
    pub row: usize,
}

/// The character is one of the ten decimal digits.
pub open spec fn is_digit_char(ch: char) -> bool {
    48 <= ch as int <= 57
}

/// The numeric value of a decimal digit character.
pub open spec fn digit_value(ch: char) -> int {
    ch as int - 48
}

/// The character selects an insertion side.
pub open spec fn is_side_char(ch: char) -> bool {
    ch == 'l' || ch == 'L' || ch == 'r' || ch == 'R'
}

/// The side a valid side character selects.
pub open spec fn side_of_char(ch: char) -> Side {
    if ch == 'l' || ch == 'L' {
        Side::Left
    } else {
        Side::Right
    }
}

impl Move {
    /// Parse a player's command: a digit giving the row followed by a
    /// letter giving the side, with no spaces in between them.
    pub fn parse(command: &str) -> (r: Result<Move, GameError>)
        ensures
            command@.len() != 2 ==> r == Err::<Move, GameError>(GameError::InvalidMoveFormat),
            command@.len() == 2 && !is_digit_char(command@[0]) ==> r == Err::<Move, GameError>(
                GameError::NonexistentRow,
            ),
            command@.len() == 2 && is_digit_char(command@[0]) && !is_side_char(command@[1]) ==> r
                == Err::<Move, GameError>(GameError::InvalidSide),
            command@.len() == 2 && is_digit_char(command@[0]) && is_side_char(command@[1]) ==> r
                == Ok::<Move, GameError>(
                Move { row: digit_value(command@[0]) as usize, side: side_of_char(command@[1]) },
            ),
    {
        if command.unicode_len() != 2 {
            return Err(GameError::InvalidMoveFormat);
        }
        let c0 = command.get_char(0);
        let v = c0 as u32;
        if !(48 <= v && v <= 57) {
            return Err(GameError::NonexistentRow);
        }
        let row = (v - 48) as usize;
        let c1 = command.get_char(1);
        let side = if c1 == 'l' || c1 == 'L' {
            Side::Left
        } else if c1 == 'r' || c1 == 'R' {
            Side::Right
        } else {
            return Err(GameError::InvalidSide);
        };
        Ok(Move { row, side })
    }
}

/// The directions in which the win scan walks away from a freshly
/// placed piece.
#[derive(Debug, Clone, Copy, PartialEq, Eq, Structural)]
pub enum Direction {
    North,
    NorthWest,
    NorthEast,
    South,
    SouthWest,
    SouthEast,
    East,
    West,
}

/// A Row of the Board.
#[derive(Debug)]
pub struct Row(pub Vec<Slot>);

impl View for Row {
    type V = Seq<Slot>;

    open spec fn view(&self) -> Seq<Slot> {
        self.0@
    }
}

/// A row is full when it contains no Blank slot.
pub open spec fn row_full(row: Seq<Slot>) -> bool {
    forall|j: int| 0 <= j < row.len() ==> row[j] != Slot::Blank
}

impl Row {
    /// Get the length of the Row.
    pub fn len(&self) -> (l: usize)
        ensures
            l == self@.len(),
    {
        self.0.len()
    }

    /// Returns whether the Row contains no Blank Slots.
    pub fn is_full(&self) -> (r: bool)
        ensures
            r == row_full(self@),
    {
        let mut j: usize = 0;
        while j < self.0.len()
            invariant
                j <= self@.len(),
                forall|k: int| 0 <= k < j ==> self@[k] != Slot::Blank,
            decreases self@.len() - j,
        {
            if self.0[j] == Slot::Blank {
                return false;
            }
            j += 1;
        }
        true
    }

    /// Get the Slot at the given column index in the Row.
    pub fn get(&self, col: usize) -> (s: &Slot)
        requires
            col < self@.len(),
        ensures
            *s == self@[col as int],
    {
        &self.0[col]
    }
}

impl Direction {
    /// The row step the direction takes (rows grow southward).
    pub open spec fn delta_row(self) -> int {
        match self {
            Direction::North => -1,
            Direction::NorthWest => -1,
            Direction::NorthEast => -1,
            Direction::South => 1,
            Direction::SouthWest => 1,
            Direction::SouthEast => 1,
            Direction::East => 0,
            Direction::West => 0,
        }
    }

    /// The column step the direction takes (columns grow eastward).
    pub open spec fn delta_col(self) -> int {
        match self {
            Direction::North => 0,
            Direction::NorthWest => -1,
            Direction::NorthEast => 1,
            Direction::South => 0,
            Direction::SouthWest => -1,
            Direction::SouthEast => 1,
            Direction::East => 1,
            Direction::West => -1,
        }
    }
}

/// The cell (r, c) lies on the board and holds s.
pub open spec fn owned_at(b: Seq<Seq<Slot>>, r: int, c: int, s: Slot) -> bool {
    &&& 0 <= r < b.len()
    &&& 0 <= c < b[r].len()
    &&& b[r][c] == s
}

/// Four consecutive cells, starting at (r0, c0) and stepping by (dr, dc),
/// all lie on the board and all hold s.
pub open spec fn four_in_row(b: Seq<Seq<Slot>>, r0: int, c0: int, dr: int, dc: int, s: Slot) -> bool {
    &&& owned_at(b, r0, c0, s)
    &&& owned_at(b, r0 + dr, c0 + dc, s)
    &&& owned_at(b, r0 + 2 * dr, c0 + 2 * dc, s)
    &&& owned_at(b, r0 + 3 * dr, c0 + 3 * dc, s)
}

/// Some window of four consecutive cells along the axis (dr, dc) contains
/// (r, c) and is entirely held by s.
pub open spec fn line_win_through(b: Seq<Seq<Slot>>, r: int, c: int, dr: int, dc: int, s: Slot) -> bool {
    ||| four_in_row(b, r - 3 * dr, c - 3 * dc, dr, dc, s)
    ||| four_in_row(b, r - 2 * dr, c - 2 * dc, dr, dc, s)
    ||| four_in_row(b, r - dr, c - dc, dr, dc, s)
    ||| four_in_row(b, r, c, dr, dc, s)
}

/// Through the cell (r, c), four consecutive slots holding s exist along
/// one of the four undirected axes: horizontal, vertical, or one of the
/// two diagonals.
pub open spec fn wins_at(b: Seq<Seq<Slot>>, r: int, c: int, s: Slot) -> bool {
    ||| line_win_through(b, r, c, 0, 1, s)
    ||| line_win_through(b, r, c, 1, 0, s)
    ||| line_win_through(b, r, c, 1, 1, s)
    ||| line_win_through(b, r, c, 1, -1, s)
}

/// Represents the game board: `height` rows of `width` slots, row-major.
#[derive(Debug)]
pub struct Board {
    pub rows: Vec<Row>,
    pub height: usize,
    pub width: usize,
}

impl View for Board {
    type V = Seq<Seq<Slot>>;

    open spec fn view(&self) -> Seq<Seq<Slot>> {
        Seq::new(self.rows@.len(), |i: int| self.rows@[i]@)
    }
}

/// A grid of exactly `h` rows, each `w` slots wide.
pub open spec fn grid(b: Seq<Seq<Slot>>, h: int, w: int) -> bool {
    &&& b.len() == h
    &&& forall|i: int| 0 <= i < h ==> (#[trigger] b[i]).len() == w
}

impl Board {
    /// The board's dimensions are as declared and the cell count fits the
    /// machine, so that a move count can be compared against it.
    pub open spec fn wf(&self) -> bool {
        &&& grid(self@, self.height as int, self.width as int)
        &&& self.height * self.width <= usize::MAX
    }

    /// Initializes a new Board with the specified height and width,
    /// every slot Blank.
    pub fn new(height: usize, width: usize) -> (b: Board)
        requires
            height * width <= usize::MAX,
        ensures
            b.wf(),
            b.height == height,
            b.width == width,
            forall|i: int, j: int|
                0 <= i < height && 0 <= j < width ==> b@[i][j] == Slot::Blank,
    {
        let mut rows: Vec<Row> = Vec::new();
        let mut i: usize = 0;
        while i < height
            invariant
                i <= height,
                rows@.len() == i,
                forall|r: int| 0 <= r < i ==> (#[trigger] rows@[r])@.len() == width,
                forall|r: int, j: int|
                    0 <= r < i && 0 <= j < width ==> rows@[r]@[j] == Slot::Blank,
            decreases height - i,
        {
            let mut slots: Vec<Slot> = Vec::new();
            let mut j: usize = 0;
            while j < width
                invariant
                    j <= width,
                    slots@.len() == j,
                    forall|k: int| 0 <= k < j ==> slots@[k] == Slot::Blank,
                decreases width - j,
            {
                slots.push(Slot::Blank);
                j += 1;
            }
            rows.push(Row(slots));
            i += 1;
        }
        Board { rows, height, width }
    }

    /// Try to fetch a reference to a specified Row.
    pub fn try_get_row(&self, row_index: usize) -> (r: Result<&Row, GameError>)
        requires
            self.wf(),
        ensures
            row_index < self.height ==> (r matches Ok(row) && row@ == self@[row_index as int]),
            row_index >= self.height ==> r == Err::<&Row, GameError>(GameError::NonexistentRow),
    {
        if row_index < self.rows.len() {
            Ok(&self.rows[row_index])
        } else {
            Err(GameError::NonexistentRow)
        }
    }

    /// Try to fetch a mutable reference to a specified Row: whatever the
    /// caller writes through it becomes that row of the board.
    pub fn try_get_row_mut(&mut self, row_index: usize) -> (r: Result<&mut Row, GameError>)
        ensures
            row_index >= old(self).rows@.len() ==> (r matches Err(e) && e
                == GameError::NonexistentRow && *final(self) == *old(self)),
            row_index < old(self).rows@.len() ==> (r matches Ok(row) && *row == old(
                self,
            ).rows@[row_index as int] && final(self).rows@ == old(self).rows@.update(
                row_index as int,
                *final(row),
            ) && final(self).height == old(self).height && final(self).width == old(self).width),
    {
        if row_index < self.rows.len() {
            Ok(&mut self.rows[row_index])
        } else {
            Err(GameError::NonexistentRow)
        }
    }

    /// Insert the given Slot into the specified Row from the left: the
    /// piece lands on the first Blank slot found from the left edge.
    /// Returns the coordinates of the spot that becomes occupied, which
    /// previously held Blank.
    pub fn insert_from_left(&mut self, row_num: usize, slot: Slot) -> (r: Result<
        (usize, usize),
        GameError,
    >)
        requires
            old(self).wf(),
        ensures
            final(self).wf(),
            final(self).height == old(self).height,
            final(self).width == old(self).width,
            row_num >= old(self).height ==> r == Err::<(usize, usize), GameError>(
                GameError::NonexistentRow,
            ) && *final(self) == *old(self),
            row_num < old(self).height && row_full(old(self)@[row_num as int]) ==> r == Err::<
                (usize, usize),
                GameError,
            >(GameError::FullRow) && *final(self) == *old(self),
            row_num < old(self).height && !row_full(old(self)@[row_num as int]) ==> (r matches Ok(
                coord,
            ) && coord.0 == row_num && coord.1 < old(self).width && old(self)@[row_num as int][coord.1 as int]
                == Slot::Blank && (forall|j: int|
                0 <= j < coord.1 ==> old(self)@[row_num as int][j] != Slot::Blank) && final(self)@
                == old(self)@.update(
                row_num as int,
                old(self)@[row_num as int].update(coord.1 as int, slot),
            )),
    {
        if row_num >= self.rows.len() {
            return Err(GameError::NonexistentRow);
        }
        if self.rows[row_num].is_full() {
            return Err(GameError::FullRow);
        }
        let width = self.width;
        let mut col: usize = 0;
        while col < width
            invariant
                self == old(self),
                self.wf(),
                row_num < self.height,
                col <= width,
                width == self.width,
                forall|j: int| 0 <= j < col ==> self@[row_num as int][j] != Slot::Blank,
            decreases width - col,
        {
            if *self.rows[row_num].get(col) == Slot::Blank {
                let row = &mut self.rows[row_num];
                row.0.set(col, slot);
                proof {
                    assert(final(self)@ =~= old(self)@.update(
                        row_num as int,
                        old(self)@[row_num as int].update(col as int, slot),
                    ));
                }
                return Ok((row_num, col));
            }
            col += 1;
        }
        Err(GameError::FullRow)
    }

    /// Insert the given Slot into the specified Row from the right: the
    /// piece lands on the first Blank slot found from the right edge.
    /// Returns the coordinates of the spot that becomes occupied, which
    /// previously held Blank.
    pub fn insert_from_right(&mut self, row_num: usize, slot: Slot) -> (r: Result<
        (usize, usize),
        GameError,
    >)
        requires
            old(self).wf(),
        ensures
            final(self).wf(),
            final(self).height == old(self).height,
            final(self).width == old(self).width,
            row_num >= old(self).height ==> r == Err::<(usize, usize), GameError>(
                GameError::NonexistentRow,
            ) && *final(self) == *old(self),
            row_num < old(self).height && row_full(old(self)@[row_num as int]) ==> r == Err::<
                (usize, usize),
                GameError,
            >(GameError::FullRow) && *final(self) == *old(self),
            row_num < old(self).height && !row_full(old(self)@[row_num as int]) ==> (r matches Ok(
                coord,
            ) && coord.0 == row_num && coord.1 < old(self).width && old(self)@[row_num as int][coord.1 as int]
                == Slot::Blank && (forall|j: int|
                coord.1 < j < old(self).width ==> old(self)@[row_num as int][j] != Slot::Blank)
                && final(self)@ == old(self)@.update(
                row_num as int,
                old(self)@[row_num as int].update(coord.1 as int, slot),
            )),
    {
        if row_num >= self.rows.len() {
            return Err(GameError::NonexistentRow);
        }
        if self.rows[row_num].is_full() {
            return Err(GameError::FullRow);
        }
        let width = self.width;
        let mut col: usize = width;
        while col > 0
            invariant
                self == old(self),
                self.wf(),
                row_num < self.height,
                col <= width,
                width == self.width,
                forall|j: int| col <= j < width ==> self@[row_num as int][j] != Slot::Blank,
            decreases col,
        {
            let c = col - 1;
            if *self.rows[row_num].get(c) == Slot::Blank {
                let row = &mut self.rows[row_num];
                row.0.set(c, slot);
                proof {
                    assert(final(self)@ =~= old(self)@.update(
                        row_num as int,
                        old(self)@[row_num as int].update(c as int, slot),
                    ));
                }
                return Ok((row_num, c));
            }
            col -= 1;
        }
        Err(GameError::FullRow)
    }

    /// Walk away from (row_num, col) in the given direction, counting
    /// consecutive slots equal to `slot`, stopping at the board edge, at the
    /// first differing slot, or after three steps: a fourth consecutive
    /// slot past the origin can never be needed.
    fn count_dir(&self, slot: &Slot, row_num: usize, col: usize, direction: Direction) -> (cnt:
        u32)
        requires
            self.wf(),
            row_num < self.height,
            col < self.width,
        ensures
            ({
                let dr = direction.delta_row();
                let dc = direction.delta_col();
                let b = self@;
                let r = row_num as int;
                let c = col as int;
                &&& cnt <= 3
                &&& cnt >= 1 ==> owned_at(b, r + dr, c + dc, *slot)
                &&& cnt >= 2 ==> owned_at(b, r + 2 * dr, c + 2 * dc, *slot)
                &&& cnt >= 3 ==> owned_at(b, r + 3 * dr, c + 3 * dc, *slot)
                &&& cnt == 0 ==> !owned_at(b, r + dr, c + dc, *slot)
                &&& cnt == 1 ==> !owned_at(b, r + 2 * dr, c + 2 * dc, *slot)
                &&& cnt == 2 ==> !owned_at(b, r + 3 * dr, c + 3 * dc, *slot)
            }),
    {
        let ghost dr = direction.delta_row();
        let ghost dc = direction.delta_col();
        let mut cnt: u32 = 0;
        let mut r = row_num;
        let mut c = col;
        while cnt < 3
            invariant
                self.wf(),
                row_num < self.height,
                col < self.width,
                r < self.height,
                c < self.width,
                cnt <= 3,
                dr == direction.delta_row(),
                dc == direction.delta_col(),
                cnt == 0 ==> r == row_num && c == col,
                cnt == 1 ==> r == row_num + dr && c == col + dc,
                cnt == 2 ==> r == row_num + 2 * dr && c == col + 2 * dc,
                cnt == 3 ==> r == row_num + 3 * dr && c == col + 3 * dc,
                cnt >= 1 ==> owned_at(self@, row_num + dr, col + dc, *slot),
                cnt >= 2 ==> owned_at(self@, row_num + 2 * dr, col + 2 * dc, *slot),
                cnt >= 3 ==> owned_at(self@, row_num + 3 * dr, col + 3 * dc, *slot),
            decreases 3 - cnt,
        {
            let next = match direction {
                Direction::North => {
                    if r == 0 {
                        return cnt;
                    }
                    (r - 1, c)
                },
                Direction::NorthWest => {
                    if r == 0 || c == 0 {
                        return cnt;
                    }
                    (r - 1, c - 1)
                },
                Direction::NorthEast => {
                    if r == 0 {
                        return cnt;
                    }
                    (r - 1, c + 1)
                },
                Direction::South => (r + 1, c),
                Direction::SouthWest => {
                    if c == 0 {
                        return cnt;
                    }
                    (r + 1, c - 1)
                },
                Direction::SouthEast => (r + 1, c + 1),
                Direction::East => (r, c + 1),
                Direction::West => {
                    if c == 0 {
                        return cnt;
                    }
                    (r, c - 1)
                },
            };
            let (nr, nc) = next;
            if nr >= self.height || nc >= self.width {
                return cnt;
            }
            proof {
                assert(self.rows@[nr as int]@ == self@[nr as int]);
            }
            if *self.rows[nr].get(nc) == *slot {
                cnt += 1;
                r = nr;
                c = nc;
            } else {
                return cnt;
            }
        }
        cnt
    }

    /// Computes whether the just-placed piece at (row_num, col), holding
    /// `slot`, completes four consecutive same-owner slots along any axis
    /// through that cell. Must be called immediately after an insert with
    /// the coordinates the insert returned.
    pub fn is_game_over(&self, row_num: usize, col: usize, slot: &Slot) -> (r: Result<
        Option<Slot>,
        GameError,
    >)
        requires
            self.wf(),
            *slot != Slot::Blank,
            row_num < self.height,
            col < self.width,
            self@[row_num as int][col as int] == *slot,
        ensures
            r == Ok::<Option<Slot>, GameError>(
                if wins_at(self@, row_num as int, col as int, *slot) {
                    Some(*slot)
                } else {
                    None
                },
            ),
    {
        let north = self.count_dir(slot, row_num, col, Direction::North);
        let south = self.count_dir(slot, row_num, col, Direction::South);
        let east = self.count_dir(slot, row_num, col, Direction::East);
        let west = self.count_dir(slot, row_num, col, Direction::West);
        let north_east = self.count_dir(slot, row_num, col, Direction::NorthEast);
        let south_west = self.count_dir(slot, row_num, col, Direction::SouthWest);
        let north_west = self.count_dir(slot, row_num, col, Direction::NorthWest);
        let south_east = self.count_dir(slot, row_num, col, Direction::SouthEast);

        let win = east + west + 1 >= 4 || south + north + 1 >= 4 || south_east + north_west + 1
            >= 4 || south_west + north_east + 1 >= 4;

        proof {
            let b = self@;
            let r = row_num as int;
            let c = col as int;
            lemma_axis_total(b, r, c, 0, 1, *slot, east as int, west as int);
            lemma_axis_total(b, r, c, 1, 0, *slot, south as int, north as int);
            lemma_axis_total(b, r, c, 1, 1, *slot, south_east as int, north_west as int);
            lemma_axis_total(b, r, c, 1, -1, *slot, south_west as int, north_east as int);
        }

        Ok(
            if win {
                Some(*slot)
            } else {
                None
            },
        )
    }
}

/// The capped counts of consecutive same-owner slots on the two sides of an
/// owned origin cell reach a total of four exactly when a fully-owned window
/// of four consecutive cells through the origin exists on that axis.
proof fn lemma_axis_total(b: Seq<Seq<Slot>>, r: int, c: int, dr: int, dc: int, s: Slot, fwd: int, bwd: int)
    requires
        owned_at(b, r, c, s),
        0 <= fwd <= 3,
        0 <= bwd <= 3,
        fwd >= 1 ==> owned_at(b, r + dr, c + dc, s),
        fwd >= 2 ==> owned_at(b, r + 2 * dr, c + 2 * dc, s),
        fwd >= 3 ==> owned_at(b, r + 3 * dr, c + 3 * dc, s),
        fwd == 0 ==> !owned_at(b, r + dr, c + dc, s),
        fwd == 1 ==> !owned_at(b, r + 2 * dr, c + 2 * dc, s),
        fwd == 2 ==> !owned_at(b, r + 3 * dr, c + 3 * dc, s),
        bwd >= 1 ==> owned_at(b, r - dr, c - dc, s),
        bwd >= 2 ==> owned_at(b, r - 2 * dr, c - 2 * dc, s),
        bwd >= 3 ==> owned_at(b, r - 3 * dr, c - 3 * dc, s),
        bwd == 0 ==> !owned_at(b, r - dr, c - dc, s),
        bwd == 1 ==> !owned_at(b, r - 2 * dr, c - 2 * dc, s),
        bwd == 2 ==> !owned_at(b, r - 3 * dr, c - 3 * dc, s),
    ensures
        (fwd + bwd + 1 >= 4) == line_win_through(b, r, c, dr, dc, s),
{
}

/// An insertion writes a Blank cell, so it can never touch a row that is
/// already full: once a row is full, it stays full through any later
/// insertion, and by `insert_from_left`/`insert_from_right`'s contracts
/// every later insert into it keeps failing with FullRow.
pub proof fn lemma_full_row_stays_full(
    b1: Seq<Seq<Slot>>,
    b2: Seq<Seq<Slot>>,
    r: int,
    i: int,
    j: int,
    s: Slot,
)
    requires
        0 <= r < b1.len(),
        row_full(b1[r]),
        0 <= i < b1.len(),
        0 <= j < b1[i].len(),
        b1[i][j] == Slot::Blank,
        b2 == b1.update(i, b1[i].update(j, s)),
    ensures
        row_full(b2[r]),
{
    assert(i != r);
    assert(b2[r] == b1[r]);
}

/// Win detection does not depend on the order in which the four axes are
/// scanned: listing the axes in the opposite order defines the same
/// predicate.
pub proof fn lemma_win_axis_order(b: Seq<Seq<Slot>>, r: int, c: int, s: Slot)
    ensures
        wins_at(b, r, c, s) == ({
            ||| line_win_through(b, r, c, 1, -1, s)
            ||| line_win_through(b, r, c, 1, 1, s)
            ||| line_win_through(b, r, c, 1, 0, s)
            ||| line_win_through(b, r, c, 0, 1, s)
        }),
{
}

/// The number of Blank slots in one row.
pub open spec fn blanks_in_row(row: Seq<Slot>) -> nat
    decreases row.len(),
{
    if row.len() == 0 {
        0
    } else {
        blanks_in_row(row.drop_last()) + if row.last() == Slot::Blank {
            1nat
        } else {
            0nat
        }
    }
}

/// The number of Blank slots on the whole board.
pub open spec fn blanks(b: Seq<Seq<Slot>>) -> nat
    decreases b.len(),
{
    if b.len() == 0 {
        0
    } else {
        blanks(b.drop_last()) + blanks_in_row(b.last())
    }
}

/// Overwriting one Blank slot of a row with a piece lowers the row's count
/// of Blank slots by exactly one.
proof fn lemma_blanks_in_row_update(row: Seq<Slot>, j: int, s: Slot)
    requires
        0 <= j < row.len(),
        row[j] == Slot::Blank,
        s != Slot::Blank,
    ensures
        blanks_in_row(row.update(j, s)) + 1 == blanks_in_row(row),
    decreases row.len(),
{
    let upd = row.update(j, s);
    if j == row.len() - 1 {
        assert(upd.drop_last() =~= row.drop_last());
        assert(upd.last() == s);
        assert(row.last() == Slot::Blank);
    } else {
        assert(upd.drop_last() =~= row.drop_last().update(j, s));
        assert(upd.last() == row.last());
        lemma_blanks_in_row_update(row.drop_last(), j, s);
    }
}

/// Overwriting one Blank cell of the board with a piece lowers the board's
/// count of Blank slots by exactly one.
pub proof fn lemma_blanks_update(b: Seq<Seq<Slot>>, i: int, j: int, s: Slot)
    requires
        0 <= i < b.len(),
        0 <= j < b[i].len(),
        b[i][j] == Slot::Blank,
        s != Slot::Blank,
    ensures
        blanks(b.update(i, b[i].update(j, s))) + 1 == blanks(b),
    decreases b.len(),
{
    let upd = b.update(i, b[i].update(j, s));
    if i == b.len() - 1 {
        assert(upd.drop_last() =~= b.drop_last());
        assert(upd.last() == b[i].update(j, s));
        lemma_blanks_in_row_update(b[i], j, s);
    } else {
        assert(upd.drop_last() =~= b.drop_last().update(i, b[i].update(j, s)));
        assert(upd.last() == b.last());
        lemma_blanks_update(b.drop_last(), i, j, s);
    }
}

/// A row holding no piece has as many Blank slots as it has slots.
proof fn lemma_blanks_in_row_all_blank(row: Seq<Slot>)
    requires
        forall|j: int| 0 <= j < row.len() ==> row[j] == Slot::Blank,
    ensures
        blanks_in_row(row) == row.len(),
    decreases row.len(),
{
    if row.len() > 0 {
        lemma_blanks_in_row_all_blank(row.drop_last());
    }
}

/// A board holding no piece has height times width Blank slots.
pub proof fn lemma_blanks_all_blank(b: Seq<Seq<Slot>>, h: int, w: int)
    requires
        grid(b, h, w),
        forall|i: int, j: int| 0 <= i < h && 0 <= j < w ==> b[i][j] == Slot::Blank,
    ensures
        blanks(b) == h * w,
    decreases h,
{
    if h > 0 {
        assert(grid(b.drop_last(), h - 1, w));
        lemma_blanks_all_blank(b.drop_last(), h - 1, w);
        lemma_blanks_in_row_all_blank(b.last());
        assert((h - 1) * w + w == h * w) by (nonlinear_arith);
    } else {
        assert(h * w == 0) by (nonlinear_arith)
            requires
                h == 0,
        ;
    }
}

/// An axis may be scanned from either of its two ends: the fully-owned
/// windows through (r, c) along (dr, dc) are exactly those along the
/// opposite direction (-dr, -dc).
pub proof fn lemma_win_direction_symmetric(
    b: Seq<Seq<Slot>>,
    r: int,
    c: int,
    dr: int,
    dc: int,
    s: Slot,
)
    ensures
        line_win_through(b, r, c, dr, dc, s) == line_win_through(b, r, c, -dr, -dc, s),
{
}

/// The board rotated by 180 degrees: cell (i, j) of the rotation holds
/// cell (len-1-i, rowlen-1-j) of the original.
pub open spec fn rotate180(b: Seq<Seq<Slot>>) -> Seq<Seq<Slot>> {
    Seq::new(
        b.len(),
        |i: int|
            Seq::new(
                b[b.len() - 1 - i].len(),
                |j: int| b[b.len() - 1 - i][b[b.len() - 1 - i].len() - 1 - j],
            ),
    )
}

/// Rotating by 180 degrees mirrors ownership of every cell, including the
/// out-of-bounds ones, where neither board owns anything.
proof fn lemma_rotate180_cells(b: Seq<Seq<Slot>>, h: int, w: int, s: Slot)
    requires
        grid(b, h, w),
    ensures
        forall|i: int, j: int| #[trigger]
            owned_at(rotate180(b), i, j, s) == owned_at(b, h - 1 - i, w - 1 - j, s),
{
    let rb = rotate180(b);
    assert(rb.len() == h);
    assert forall|i: int, j: int| #[trigger]
        owned_at(rb, i, j, s) == owned_at(b, h - 1 - i, w - 1 - j, s) by {
        if 0 <= i < h {
            assert(b[h - 1 - i].len() == w);
            assert(rb[i].len() == w);
            if 0 <= j < w {
                assert(rb[i][j] == b[h - 1 - i][w - 1 - j]);
            }
        }
    }
}

/// A fully-owned window along (dr, dc) mirrors, under 180-degree rotation,
/// to a fully-owned window along the same axis, read from its other end.
proof fn lemma_four_in_row_rotated(
    b: Seq<Seq<Slot>>,
    h: int,
    w: int,
    r0: int,
    c0: int,
    dr: int,
    dc: int,
    s: Slot,
)
    requires
        grid(b, h, w),
    ensures
        four_in_row(rotate180(b), h - 1 - r0 - 3 * dr, w - 1 - c0 - 3 * dc, dr, dc, s)
            == four_in_row(b, r0, c0, dr, dc, s),
{
    lemma_rotate180_cells(b, h, w, s);
}

/// Win detection is symmetric under rotating the board by 180 degrees:
/// a piece at (r, c) wins exactly when, on the rotated board, the piece at
/// the mirrored coordinates wins.
pub proof fn lemma_win_rotation_symmetric(
    b: Seq<Seq<Slot>>,
    h: int,
    w: int,
    r: int,
    c: int,
    s: Slot,
)
    requires
        grid(b, h, w),
        0 <= r < h,
        0 <= c < w,
    ensures
        wins_at(rotate180(b), h - 1 - r, w - 1 - c, s) == wins_at(b, r, c, s),
{
    lemma_four_in_row_rotated(b, h, w, r, c - 3, 0, 1, s);
    lemma_four_in_row_rotated(b, h, w, r, c - 2, 0, 1, s);
    lemma_four_in_row_rotated(b, h, w, r, c - 1, 0, 1, s);
    lemma_four_in_row_rotated(b, h, w, r, c, 0, 1, s);
    lemma_four_in_row_rotated(b, h, w, r - 3, c, 1, 0, s);
    lemma_four_in_row_rotated(b, h, w, r - 2, c, 1, 0, s);
    lemma_four_in_row_rotated(b, h, w, r - 1, c, 1, 0, s);
    lemma_four_in_row_rotated(b, h, w, r, c, 1, 0, s);
    lemma_four_in_row_rotated(b, h, w, r - 3, c - 3, 1, 1, s);
    lemma_four_in_row_rotated(b, h, w, r - 2, c - 2, 1, 1, s);
    lemma_four_in_row_rotated(b, h, w, r - 1, c - 1, 1, 1, s);
    lemma_four_in_row_rotated(b, h, w, r, c, 1, 1, s);
    lemma_four_in_row_rotated(b, h, w, r - 3, c + 3, 1, -1, s);
    lemma_four_in_row_rotated(b, h, w, r - 2, c + 2, 1, -1, s);
    lemma_four_in_row_rotated(b, h, w, r - 1, c + 1, 1, -1, s);
    lemma_four_in_row_rotated(b, h, w, r, c, 1, -1, s);
}

} // verus!
