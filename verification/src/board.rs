//! The 3x3 board: representation, mutation, and the win and draw queries.
//!
//! A board is a total mapping from coordinates `(x, y)` with `x, y < 3`
//! to a [`Player`] value.  Its mathematical view (`board@`) is a
//! sequence of nine cells in scan order: cell `(x, y)` sits at index
//! `y * 3 + x`, so the rows of the grid follow one another.

use vstd::prelude::*;

use crate::player::Player;

verus! {

/// A coordinate pair naming one cell: `x` is the column, `y` the row.
#[derive(Debug, Clone, Copy, PartialEq, Eq, Structural)]
pub struct Move {
    pub x: usize,
    pub y: usize,
}

impl Move {
    /// Both coordinates lie on the board.
    pub open spec fn in_range(self) -> bool {
        self.x < 3 && self.y < 3
    }

    /// The index of this cell in the board's scan-order view.
    pub open spec fn scan_index(self) -> int {
        (self.y as int) * 3 + (self.x as int)
    }

    pub fn new(x: usize, y: usize) -> (r: Move)
        ensures
            r.x == x,
            r.y == y,
    {
        Move { x, y }
    }
}

/// The owner of a full line: the player whose marks fill all three
/// cells, or `Empty` when no player does.
pub open spec fn line_owner(a: Player, b: Player, c: Player) -> Player {
    if a != Player::Empty && a == b && b == c {
        a
    } else {
        Player::Empty
    }
}

/// Whether the mark `p` occurs among the three cells of a line.
pub open spec fn line_has(a: Player, b: Player, c: Player, p: Player) -> bool {
    a == p || b == p || c == p
}

/// A line is live while at most one player's marks occur in it, so a
/// single player could still complete it; it is dead once both players
/// have marked it.
pub open spec fn line_live(a: Player, b: Player, c: Player) -> bool {
    !(line_has(a, b, c, Player::Cross) && line_has(a, b, c, Player::Circle))
}

pub open spec fn col_owner(s: Seq<Player>, n: int) -> Player {
    line_owner(s[n], s[n + 3], s[n + 6])
}

pub open spec fn row_owner(s: Seq<Player>, n: int) -> Player {
    line_owner(s[3 * n], s[3 * n + 1], s[3 * n + 2])
}

pub open spec fn diag_owner(s: Seq<Player>) -> Player {
    line_owner(s[0], s[4], s[8])
}

pub open spec fn anti_diag_owner(s: Seq<Player>) -> Player {
    line_owner(s[2], s[4], s[6])
}

pub open spec fn col_live(s: Seq<Player>, n: int) -> bool {
    line_live(s[n], s[n + 3], s[n + 6])
}

pub open spec fn row_live(s: Seq<Player>, n: int) -> bool {
    line_live(s[3 * n], s[3 * n + 1], s[3 * n + 2])
}

pub open spec fn diag_live(s: Seq<Player>) -> bool {
    line_live(s[0], s[4], s[8])
}

pub open spec fn anti_diag_live(s: Seq<Player>) -> bool {
    line_live(s[2], s[4], s[6])
}

/// The winner that a scan of the eight lines reports: the owner of the
/// first owned line, checking column 0, row 0, column 1, row 1,
/// column 2, row 2, then the two diagonals; `Empty` when no line is
/// owned.  In a position reached by legal alternating play at most one
/// player can own a line, so the order only fixes which of a player's
/// own several lines is reported.
pub open spec fn winner_of(s: Seq<Player>) -> Player {
    if col_owner(s, 0) != Player::Empty {
        col_owner(s, 0)
    } else if row_owner(s, 0) != Player::Empty {
        row_owner(s, 0)
    } else if col_owner(s, 1) != Player::Empty {
        col_owner(s, 1)
    } else if row_owner(s, 1) != Player::Empty {
        row_owner(s, 1)
    } else if col_owner(s, 2) != Player::Empty {
        col_owner(s, 2)
    } else if row_owner(s, 2) != Player::Empty {
        row_owner(s, 2)
    } else if diag_owner(s) != Player::Empty {
        diag_owner(s)
    } else if anti_diag_owner(s) != Player::Empty {
        anti_diag_owner(s)
    } else {
        Player::Empty
    }
}

/// A position is drawn once no line can be completed by either player
/// any more: every one of the eight lines already holds both players'
/// marks.  This can hold before the board is full.
pub open spec fn is_draw_of(s: Seq<Player>) -> bool {
    &&& !col_live(s, 0)
    &&& !col_live(s, 1)
    &&& !col_live(s, 2)
    &&& !row_live(s, 0)
    &&& !row_live(s, 1)
    &&& !row_live(s, 2)
    &&& !diag_live(s)
    &&& !anti_diag_live(s)
}

/// A position is terminal when somebody has won or no line can be
/// completed any more.
pub open spec fn is_terminal(s: Seq<Player>) -> bool {
    winner_of(s) != Player::Empty || is_draw_of(s)
}

/// How many of the cells at index `i` and above are empty.
pub open spec fn empty_count_from(s: Seq<Player>, i: int) -> nat
    decreases 9 - i,
{
    if i >= 9 {
        0
    } else {
        (if s[i] == Player::Empty {
            1nat
        } else {
            0nat
        }) + empty_count_from(s, i + 1)
    }
}

/// How many cells of the board are empty.
pub open spec fn empty_count(s: Seq<Player>) -> nat {
    empty_count_from(s, 0)
}

proof fn lemma_empty_count_update_from(s: Seq<Player>, j: int, p: Player, i: int)
    requires
        s.len() == 9,
        0 <= j < 9,
        s[j] == Player::Empty,
        p != Player::Empty,
        0 <= i <= 9,
    ensures
        i <= j ==> empty_count_from(s.update(j, p), i) + 1 == empty_count_from(s, i),
        i > j ==> empty_count_from(s.update(j, p), i) == empty_count_from(s, i),
    decreases 9 - i,
{
    if i < 9 {
        lemma_empty_count_update_from(s, j, p, i + 1);
    }
}

/// Marking an empty cell lowers the number of empty cells by one.
pub proof fn lemma_empty_count_update(s: Seq<Player>, j: int, p: Player)
    requires
        s.len() == 9,
        0 <= j < 9,
        s[j] == Player::Empty,
        p != Player::Empty,
    ensures
        empty_count(s.update(j, p)) + 1 == empty_count(s),
{
    lemma_empty_count_update_from(s, j, p, 0);
}

/// At most `9 - i` cells lie at index `i` and above.
pub proof fn lemma_empty_count_from_bound(s: Seq<Player>, i: int)
    requires
        0 <= i <= 9,
    ensures
        empty_count_from(s, i) <= 9 - i,
    decreases 9 - i,
{
    if i < 9 {
        lemma_empty_count_from_bound(s, i + 1);
    }
}

/// The count of empty cells at index `i` and above is positive exactly
/// when such an empty cell exists.
pub proof fn lemma_empty_count_from_pos(s: Seq<Player>, i: int)
    requires
        0 <= i <= 9,
    ensures
        empty_count_from(s, i) > 0 <==> exists|j: int| i <= j < 9 && s[j] == Player::Empty,
    decreases 9 - i,
{
    if i < 9 {
        lemma_empty_count_from_pos(s, i + 1);
        if s[i] == Player::Empty {
            assert(i <= i < 9 && s[i] == Player::Empty);
        } else if empty_count_from(s, i) > 0 {
            let j = choose|j: int| i + 1 <= j < 9 && s[j] == Player::Empty;
            assert(i <= j < 9 && s[j] == Player::Empty);
        } else if exists|j: int| i <= j < 9 && s[j] == Player::Empty {
            let j = choose|j: int| i <= j < 9 && s[j] == Player::Empty;
            assert(i + 1 <= j < 9 && s[j] == Player::Empty);
        }
    }
}

/// The rejection of a move that does not name an empty on-board cell.
#[derive(Debug, Clone, Copy, PartialEq, Eq, Structural)]
pub enum GameError {
    InvalidMove,
}

/// The state of a position as the driving loop sees it.  A win takes
/// priority over a draw.
#[derive(Debug, Clone, Copy, PartialEq, Eq, Structural)]
pub enum Outcome {
    Winner(Player),
    Draw,
    InProgress,
}

/// The outcome that [`Board::outcome`] reports for a view.
pub open spec fn outcome_of(s: Seq<Player>) -> Outcome {
    if winner_of(s) != Player::Empty {
        Outcome::Winner(winner_of(s))
    } else if is_draw_of(s) {
        Outcome::Draw
    } else {
        Outcome::InProgress
    }
}

/// The 3x3 grid of cells.  A board is a plain value: copying it yields
/// an independent board.
#[derive(Debug, Clone, Copy)]
pub struct Board {
    cells: [Player; 9],
}

impl View for Board {
    type V = Seq<Player>;

    closed spec fn view(&self) -> Seq<Player> {
        self.cells@
    }
}

impl Board {
    /// A board with all nine cells empty.
    pub fn new() -> (r: Board)
        ensures
            r@.len() == 9,
            forall|i: int| 0 <= i < 9 ==> r@[i] == Player::Empty,
    {
        Board { cells: [Player::Empty;9] }
    }

    /// The cell value at the move's coordinate.
    pub fn get_field(&self, pos: &Move) -> (r: Player)
        requires
            pos.in_range(),
        ensures
            r == self@[pos.scan_index()],
    {
        self.cells[pos.y * 3 + pos.x]
    }

    /// Writes `value` at the move's coordinate, leaving every other
    /// cell as it was.  This is a primitive: it does not ask whether
    /// the cell was empty, so it can also clear a cell again.  Use
    /// [`Board::try_set_field`] to have the move checked.
    pub fn set_field(&mut self, pos: &Move, value: Player)
        requires
            pos.in_range(),
        ensures
            final(self)@ == old(self)@.update(pos.scan_index(), value),
    {
        self.cells[pos.y * 3 + pos.x] = value;
    }

    /// Writes `value` at the move's coordinate after checking the
    /// move: it must name an on-board cell that is still empty.  A
    /// rejected move leaves the board unchanged.
    pub fn try_set_field(&mut self, pos: &Move, value: Player) -> (r: Result<(), GameError>)
        ensures
            r is Ok <==> pos.in_range() && old(self)@[pos.scan_index()] == Player::Empty,
            r is Ok ==> final(self)@ == old(self)@.update(pos.scan_index(), value),
            r is Err ==> *final(self) == *old(self) && r == Err::<(), GameError>(GameError::InvalidMove),
    {
        if pos.x < 3 && pos.y < 3 {
            if self.cells[pos.y * 3 + pos.x] == Player::Empty {
                self.cells[pos.y * 3 + pos.x] = value;
                Ok(())
            } else {
                Err(GameError::InvalidMove)
            }
        } else {
            Err(GameError::InvalidMove)
        }
    }

    /// Searches the eight lines for three equal marks and returns the
    /// owner of the first owned line, or `Empty` when there is none.
    pub fn get_winner(&self) -> (r: Player)
        ensures
            r == winner_of(self@),
    {
        let s = &self.cells;
        let mut owner: Player;
        owner = owner_of_line(s[0], s[3], s[6]);
        if owner != Player::Empty {
            return owner;
        }
        owner = owner_of_line(s[0], s[1], s[2]);
        if owner != Player::Empty {
            return owner;
        }
        owner = owner_of_line(s[1], s[4], s[7]);
        if owner != Player::Empty {
            return owner;
        }
        owner = owner_of_line(s[3], s[4], s[5]);
        if owner != Player::Empty {
            return owner;
        }
        owner = owner_of_line(s[2], s[5], s[8]);
        if owner != Player::Empty {
            return owner;
        }
        owner = owner_of_line(s[6], s[7], s[8]);
        if owner != Player::Empty {
            return owner;
        }
        owner = owner_of_line(s[0], s[4], s[8]);
        if owner != Player::Empty {
            return owner;
        }
        owner = owner_of_line(s[2], s[4], s[6]);
        if owner != Player::Empty {
            return owner;
        }
        Player::Empty
    }

    /// True once nobody can win any more: every line already holds
    /// both players' marks.
    pub fn is_draw(&self) -> (r: bool)
        ensures
            r == is_draw_of(self@),
    {
        let s = &self.cells;
        if is_possible_row(s[0], s[3], s[6]) {
            return false;
        }
        if is_possible_row(s[0], s[1], s[2]) {
            return false;
        }
        if is_possible_row(s[1], s[4], s[7]) {
            return false;
        }
        if is_possible_row(s[3], s[4], s[5]) {
            return false;
        }
        if is_possible_row(s[2], s[5], s[8]) {
            return false;
        }
        if is_possible_row(s[6], s[7], s[8]) {
            return false;
        }
        if is_possible_row(s[0], s[4], s[8]) {
            return false;
        }
        if is_possible_row(s[2], s[4], s[6]) {
            return false;
        }
        true
    }

    /// The derived state of the position: the winner when a line is
    /// owned, else a draw once no line can be completed, else still in
    /// progress.  The winner check runs first, so a winning final move
    /// is never reported as a draw.
    pub fn outcome(&self) -> (r: Outcome)
        ensures
            r == outcome_of(self@),
    {
        let winner = self.get_winner();
        if winner != Player::Empty {
            Outcome::Winner(winner)
        } else if self.is_draw() {
            Outcome::Draw
        } else {
            Outcome::InProgress
        }
    }
}

/// The owner of one full line, or `Empty`.
fn owner_of_line(a: Player, b: Player, c: Player) -> (r: Player)
    ensures
        r == line_owner(a, b, c),
{
    if a != Player::Empty && a == b && b == c {
        a
    } else {
        Player::Empty
    }
}

/// Whether one player could still complete this line.
fn is_possible_row(a: Player, b: Player, c: Player) -> (r: bool)
    ensures
        r == line_live(a, b, c),
{
    let has_cross = a == Player::Cross || b == Player::Cross || c == Player::Cross;
    let has_circle = a == Player::Circle || b == Player::Circle || c == Player::Circle;
    !(has_cross && has_circle)
}

} // verus!
