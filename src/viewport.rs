//! Minimal-motion scrolling that keeps the cursor on screen.
use vstd::prelude::*;
use crate::cursor::Cursor;

verus! {

/// The first buffer line and column shown on screen.
#[derive(Debug, Clone, Copy, PartialEq, Eq, Structural)]
pub struct Viewport {
    pub row_offset: usize,
    pub col_offset: usize,
}

/// The offset along one axis after scrolling just enough to show `pos` in a
/// window of `size` cells.
pub open spec fn scroll_spec(offset: int, pos: int, size: int) -> int {
    if pos < offset {
        pos
    } else if pos >= offset + size {
        pos - size + 1
    } else {
        offset
    }
}

/// Scrolls one axis: moves `offset` the least that brings `pos` into a window
/// of `size` cells.
pub fn scroll_axis(offset: usize, pos: usize, size: usize) -> (r: usize)
    requires
        size >= 1,
    ensures
        r == scroll_spec(offset as int, pos as int, size as int),
        r <= pos < r + size,
{
    if pos < offset {
        pos
    } else if pos - offset >= size {
        pos - size + 1
    } else {
        offset
    }
}

impl Viewport {
    /// The top-left corner of the buffer.
    pub fn origin() -> (r: Viewport)
        ensures
            r.row_offset == 0 && r.col_offset == 0,
    {
        Viewport { row_offset: 0, col_offset: 0 }
    }

    /// The offsets that keep `cursor` inside a window of `rows` lines and
    /// `cols` columns, moved as little as possible from these.
    pub fn recompute(&self, cursor: Cursor, rows: usize, cols: usize) -> (r: Viewport)
        requires
            rows >= 1,
            cols >= 1,
        ensures
            r.row_offset == scroll_spec(self.row_offset as int, cursor.row as int, rows as int),
            r.col_offset == scroll_spec(self.col_offset as int, cursor.col as int, cols as int),
            r.row_offset <= cursor.row < r.row_offset + rows,
            r.col_offset <= cursor.col < r.col_offset + cols,
    {
        Viewport {
            row_offset: scroll_axis(self.row_offset, cursor.row, rows),
            col_offset: scroll_axis(self.col_offset, cursor.col, cols),
        }
    }

    /// Where the cursor stands on screen, as (column, row).
    pub fn screen_position(&self, cursor: Cursor) -> (r: (usize, usize))
        requires
            self.row_offset <= cursor.row,
            self.col_offset <= cursor.col,
        ensures
            r.0 == cursor.col - self.col_offset,
            r.1 == cursor.row - self.row_offset,
    {
        (cursor.col - self.col_offset, cursor.row - self.row_offset)
    }
}

/// After recomputation the cursor is inside the window on both axes, for every
/// cursor position, every earlier offset, and every window of at least one
/// cell.
pub proof fn lemma_recompute_shows_cursor(offset: int, pos: int, size: int)
    requires
        pos >= 0,
        offset >= 0,
        size >= 1,
    ensures
        0 <= scroll_spec(offset, pos, size) <= pos < scroll_spec(offset, pos, size) + size,
{
}

} // verus!
