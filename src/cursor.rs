//! The logical cursor and its saturating movement rules.
use vstd::prelude::*;
use crate::text::{TextBuffer, line_count, line_len, lemma_line_bounds};

verus! {

/// A direction of cursor movement.
#[derive(Debug, Clone, Copy, PartialEq, Eq, Structural)]
pub enum Direction {
    Up,
    Down,
    Left,
    Right,
}

/// A position in the buffer: a line and a column within it.
#[derive(Debug, Clone, Copy, PartialEq, Eq, Structural)]
pub struct Cursor {
    pub row: usize,
    pub col: usize,
}

/// The last column the cursor may take on a line of `len` characters: the
/// append position in Insert mode, the last character otherwise.
pub open spec fn max_col(len: int, insert: bool) -> int {
    if insert {
        len
    } else if len <= 0 {
        0
    } else {
        len - 1
    }
}

/// `x` pulled into `[lo, hi]`.
pub open spec fn clamp_int(x: int, lo: int, hi: int) -> int {
    if x < lo {
        lo
    } else if x > hi {
        hi
    } else {
        x
    }
}

/// Whether `c` is a valid position in `s` under the mode's rule.
pub open spec fn cursor_valid(s: Seq<char>, c: Cursor, insert: bool) -> bool {
    c.row < line_count(s) && c.col <= max_col(line_len(s, c.row as nat), insert)
}

/// The row that a wished-for row is clamped to.
pub open spec fn clamped_row(s: Seq<char>, row: int) -> int {
    clamp_int(row, 0, line_count(s) - 1)
}

/// The column that a wished-for position is clamped to.
pub open spec fn clamped_col(s: Seq<char>, row: int, col: int, insert: bool) -> int {
    clamp_int(col, 0, max_col(line_len(s, clamped_row(s, row) as nat), insert))
}

/// Whether `c` is the position `(row, col)` clamped into `s`.
pub open spec fn is_clamped(s: Seq<char>, c: Cursor, row: int, col: int, insert: bool) -> bool {
    c.row == clamped_row(s, row) && c.col == clamped_col(s, row, col, insert)
}

/// The position wished for by a move, before clamping.
pub open spec fn move_target(c: Cursor, dir: Direction, amount: int) -> (int, int) {
    match dir {
        Direction::Up => (c.row - amount, c.col as int),
        Direction::Down => (c.row + amount, c.col as int),
        Direction::Left => (c.row as int, c.col - amount),
        Direction::Right => (c.row as int, c.col + amount),
    }
}

impl Cursor {
    /// The origin, valid in every buffer and mode.
    pub fn origin() -> (r: Cursor)
        ensures
            r.row == 0 && r.col == 0,
    {
        Cursor { row: 0, col: 0 }
    }

    /// The position `(row, col)` pulled into the buffer: the row to the last
    /// line, the column to the mode's last column on that line.
    pub fn clamp(buf: &TextBuffer, row: usize, col: usize, insert: bool) -> (r: Cursor)
        ensures
            is_clamped(buf@, r, row as int, col as int, insert),
            cursor_valid(buf@, r, insert),
    {
        let lines = buf.line_count();
        let r = if row >= lines {
            lines - 1
        } else {
            row
        };
        proof {
            lemma_line_bounds(buf@, r as nat);
        }
        let len = buf.line_len(r);
        let maxc = if insert {
            len
        } else if len == 0 {
            0
        } else {
            len - 1
        };
        let c = if col > maxc {
            maxc
        } else {
            col
        };
        Cursor { row: r, col: c }
    }

    /// Moves `amount` steps in `dir`, saturating at the edges of the buffer,
    /// then clamps to the mode's rule.
    pub fn move_by(&mut self, buf: &TextBuffer, insert: bool, dir: Direction, amount: usize)
        ensures
            is_clamped(
                buf@,
                *final(self),
                move_target(*old(self), dir, amount as int).0,
                move_target(*old(self), dir, amount as int).1,
                insert,
            ),
            cursor_valid(buf@, *final(self), insert),
    {
        let row = self.row;
        let col = self.col;
        let lines = buf.line_count();
        let _total = buf.len_chars();
        let (r, c) = match dir {
            Direction::Up => (if amount > row { 0 } else { row - amount }, col),
            Direction::Down => (if amount > usize::MAX - row { usize::MAX } else { row + amount }, col),
            Direction::Left => (row, if amount > col { 0 } else { col - amount }),
            Direction::Right => (row, if amount > usize::MAX - col { usize::MAX } else { col + amount }),
        };
        proof {
            lemma_line_bounds(buf@, clamped_row(buf@, move_target(*old(self), dir, amount as int).0) as nat);
        }
        *self = Cursor::clamp(buf, r, c, insert);
    }
}

/// Moving never leaves the buffer or breaks the mode's column rule, whatever
/// the direction and the amount, and however often it is repeated.
pub proof fn lemma_move_stays_valid(s: Seq<char>, c: Cursor, d: Cursor, dir: Direction, amount: int, insert: bool)
    requires
        amount >= 0,
        is_clamped(s, d, move_target(c, dir, amount).0, move_target(c, dir, amount).1, insert),
    ensures
        cursor_valid(s, d, insert),
        d.row < line_count(s),
        !insert && line_len(s, d.row as nat) > 0 ==> d.col < line_len(s, d.row as nat),
        !insert && line_len(s, d.row as nat) == 0 ==> d.col == 0,
{
    lemma_line_bounds(s, d.row as nat);
}

} // verus!
