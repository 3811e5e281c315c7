//! The editor session's state and the modal key-handling state machine.
use vstd::prelude::*;
use crate::command::{Action, interpret, interprets_as};
use crate::cursor::{Cursor, Direction, cursor_valid, is_clamped, move_target};
use crate::strings::{pop_char, push_char};
use crate::text::{
    TextBuffer, delete_in_range, deleted, inserted, line_count, line_end, line_len, line_start,
    lemma_insert_extends_line, lemma_insert_keeps_line_start, lemma_insert_nl_count,
    lemma_line_bounds, lemma_remove_in_line, lemma_remove_nl_count,
};
use crate::viewport::{Viewport, scroll_spec};

verus! {

/// The active mode. Command mode carries the command line being typed.
#[derive(Debug)]
pub enum Mode {
    Normal,
    Insert,
    Command(String),
}

/// The name shown on the status line for a mode.
pub open spec fn mode_name(m: Mode) -> Seq<char> {
    match m {
        Mode::Normal => "NORMAL"@,
        Mode::Insert => "INSERT"@,
        Mode::Command(_) => "COMMAND"@,
    }
}

impl Mode {
    /// The name shown on the status line.
    pub fn as_str(&self) -> (r: &'static str)
        ensures
            r@ == mode_name(*self),
    {
        match self {
            Mode::Normal => "NORMAL",
            Mode::Insert => "INSERT",
            Mode::Command(_) => "COMMAND",
        }
    }
}

/// A key press, as the host decodes it.
#[derive(Debug, Clone, Copy, PartialEq, Eq, Structural)]
pub enum Key {
    Char(char),
    Enter,
    Esc,
    Backspace,
    Delete,
    Up,
    Down,
    Left,
    Right,
    /// Any key the editor has no use for.
    Other,
}

/// The state of one editing session: buffer, cursor, viewport and mode.
pub struct Editor {
    pub buffer: TextBuffer,
    pub cursor: Cursor,
    pub view: Viewport,
    /// Visible text lines.
    pub rows: usize,
    /// Visible text columns.
    pub cols: usize,
    pub mode: Mode,
    pub filename: String,
    /// Set once a quit command has been dispatched.
    pub quit: bool,
}

/// The cursor and viewport rules that hold between events.
pub open spec fn editor_wf(e: Editor) -> bool {
    &&& cursor_valid(e.buffer@, e.cursor, e.mode is Insert)
    &&& e.rows >= 1
    &&& e.cols >= 1
    &&& e.view.row_offset <= e.cursor.row < e.view.row_offset + e.rows
    &&& e.view.col_offset <= e.cursor.col < e.view.col_offset + e.cols
}

/// Where the cursor goes after `ch` is typed at `c`: past the character, or
/// to the start of the next line after a line break.
pub open spec fn advanced(c: Cursor, ch: char) -> Cursor {
    if ch == '\n' {
        Cursor { row: (c.row + 1) as usize, col: 0 }
    } else {
        Cursor { row: c.row, col: (c.col + 1) as usize }
    }
}

/// What a key does in Insert mode to the text `s` and cursor `c`, giving the
/// text `t`, cursor `d` and mode `m`.
pub open spec fn insert_step(s: Seq<char>, c: Cursor, key: Key, t: Seq<char>, d: Cursor, m: Mode) -> bool {
    let row = c.row as int;
    let col = c.col as int;
    match key {
        Key::Esc => m is Normal && t == s && is_clamped(s, d, row, col, false),
        Key::Enter => m is Insert && t == inserted(s, c.row as nat, c.col as nat, '\n')
            && d == advanced(c, '\n'),
        Key::Char(ch) => m is Insert && t == inserted(s, c.row as nat, c.col as nat, ch)
            && d == advanced(c, ch),
        Key::Backspace => m is Insert && if col > 0 {
            t == deleted(s, c.row as nat, (col - 1) as nat, c.col as nat)
                && d == (Cursor { row: c.row, col: (col - 1) as usize })
        } else if row > 0 {
            let plen = line_len(s, (row - 1) as nat);
            t == deleted(s, (row - 1) as nat, plen as nat, (plen + 1) as nat)
                && d == (Cursor { row: (row - 1) as usize, col: plen as usize })
        } else {
            t == s && d == c
        },
        Key::Delete => m is Insert && d == c && t == (if delete_in_range(s, c.row as nat, c.col as nat, c.col as nat + 1) {
            deleted(s, c.row as nat, c.col as nat, c.col as nat + 1)
        } else {
            s
        }),
        Key::Up => m is Insert && t == s && is_clamped(s, d, row - 1, col, true),
        Key::Down => m is Insert && t == s && is_clamped(s, d, row + 1, col, true),
        Key::Left => m is Insert && t == s && is_clamped(s, d, row, col - 1, true),
        Key::Right => m is Insert && t == s && is_clamped(s, d, row, col + 1, true),
        Key::Other => m is Insert && t == s && d == c,
    }
}

/// What a key does in Command mode to the command text `p`: the new mode `m`,
/// the action reported `r`, and whether it quits.
pub open spec fn command_step(p: Seq<char>, key: Key, m: Mode, r: Action) -> bool {
    match key {
        Key::Enter => m is Normal && interprets_as(p, r),
        Key::Esc => m is Normal && r is Nothing,
        Key::Backspace => r is Nothing && (m matches Mode::Command(u) && u@ == (if p.len() > 1 {
            p.drop_last()
        } else {
            p
        })),
        Key::Char(ch) => r is Nothing && (m matches Mode::Command(u) && u@ == p.push(ch)),
        _ => r is Nothing && (m matches Mode::Command(u) && u@ == p),
    }
}

/// What a key does in Normal mode: `i` enters Insert mode, `:` enters Command
/// mode with the `:` marker, everything else changes nothing.
pub open spec fn normal_step(key: Key, m: Mode) -> bool {
    match key {
        Key::Char(ch) => if ch == 'i' {
            m is Insert
        } else if ch == ':' {
            m matches Mode::Command(u) && u@ == seq![':']
        } else {
            m is Normal
        },
        _ => m is Normal,
    }
}

/// One event applied to `e`, giving `f` and reporting `r`.
pub open spec fn stepped(e: Editor, f: Editor, key: Key, r: Action) -> bool {
    &&& f.rows == e.rows
    &&& f.cols == e.cols
    &&& f.filename@ == e.filename@
    &&& f.view.row_offset == scroll_spec(e.view.row_offset as int, f.cursor.row as int, e.rows as int)
    &&& f.view.col_offset == scroll_spec(e.view.col_offset as int, f.cursor.col as int, e.cols as int)
    &&& f.quit == (e.quit || r is Quit)
    &&& match e.mode {
        Mode::Normal => r is Nothing && f.buffer@ == e.buffer@ && f.cursor == e.cursor
            && normal_step(key, f.mode),
        Mode::Insert => r is Nothing && insert_step(e.buffer@, e.cursor, key, f.buffer@, f.cursor, f.mode),
        Mode::Command(p) => f.buffer@ == e.buffer@ && f.cursor == e.cursor
            && command_step(p@, key, f.mode, r),
    }
}

/// Whether the transition table has an entry for `key` in mode `m`.
pub open spec fn listed(m: Mode, key: Key) -> bool {
    match m {
        Mode::Normal => key == Key::Char('i') || key == Key::Char(':'),
        Mode::Insert => !(key is Other),
        Mode::Command(_) => key is Enter || key is Esc || key is Backspace || key is Char,
    }
}

/// A key that the transition table does not list for the current mode
/// changes nothing: the buffer, the cursor, the mode, its command text and the
/// quit flag all stay as they were, and no action is reported.
pub proof fn lemma_unlisted_key_is_noop(e: Editor, f: Editor, key: Key, r: Action)
    requires
        stepped(e, f, key, r),
        !listed(e.mode, key),
    ensures
        f.buffer@ == e.buffer@,
        f.cursor == e.cursor,
        f.quit == e.quit,
        r is Nothing,
        e.mode is Normal ==> f.mode is Normal,
        e.mode is Insert ==> f.mode is Insert,
        e.mode is Command ==> (f.mode matches Mode::Command(u) && u@ == e.mode->Command_0@),
{
}

/// The index in the text of column `col` of line `row`.
fn rope_index(buf: &TextBuffer, row: usize, col: usize) -> (i: usize)
    requires
        row < line_count(buf@),
        col <= line_len(buf@, row as nat),
    ensures
        i == line_start(buf@, row as nat) + col,
        i <= line_end(buf@, row as nat),
{
    proof {
        lemma_line_bounds(buf@, row as nat);
    }
    let _total = buf.len_chars();
    buf.line_start(row) + col
}

impl Editor {
    /// A session on `filename` with an empty buffer, in Normal mode.
    pub fn default(filename: String) -> (r: Editor)
        ensures
            editor_wf(r),
            r.buffer@ == Seq::<char>::empty(),
            r.mode is Normal,
            r.cursor.row == 0 && r.cursor.col == 0,
            r.view.row_offset == 0 && r.view.col_offset == 0,
            r.filename@ == filename@,
            !r.quit,
    {
        Editor::open(filename, TextBuffer::new())
    }

    /// A session on `filename` holding `buffer`, in Normal mode, the cursor at
    /// the start.
    pub fn open(filename: String, buffer: TextBuffer) -> (r: Editor)
        ensures
            editor_wf(r),
            r.buffer@ == buffer@,
            r.mode is Normal,
            r.cursor.row == 0 && r.cursor.col == 0,
            r.view.row_offset == 0 && r.view.col_offset == 0,
            r.rows == 1 && r.cols == 1,
            r.filename@ == filename@,
            !r.quit,
    {
        proof {
            lemma_line_bounds(buffer@, 0);
        }
        Editor {
            buffer,
            cursor: Cursor::origin(),
            view: Viewport::origin(),
            rows: 1,
            cols: 1,
            mode: Mode::Normal,
            filename,
            quit: false,
        }
    }

    /// Takes the screen size from the host: the last two screen rows hold the
    /// status and command lines, and the text area is at least one cell.
    pub fn resize(&mut self, screen_cols: usize, screen_rows: usize)
        requires
            editor_wf(*old(self)),
        ensures
            editor_wf(*final(self)),
            final(self).rows == (if screen_rows > 2 { screen_rows - 2 } else { 1 }),
            final(self).cols == (if screen_cols > 0 { screen_cols } else { 1 }),
            final(self).buffer@ == old(self).buffer@,
            final(self).cursor == old(self).cursor,
            final(self).quit == old(self).quit,
    {
        self.rows = if screen_rows > 2 {
            screen_rows - 2
        } else {
            1
        };
        self.cols = if screen_cols > 0 {
            screen_cols
        } else {
            1
        };
        self.view = self.view.recompute(self.cursor, self.rows, self.cols);
    }

    fn insert_key(&mut self, key: Key) -> (m: Mode)
        requires
            editor_wf(*old(self)),
            old(self).mode is Insert,
        ensures
            insert_step(old(self).buffer@, old(self).cursor, key, final(self).buffer@, final(self).cursor, m),
            cursor_valid(final(self).buffer@, final(self).cursor, m is Insert),
            final(self).rows == old(self).rows,
            final(self).cols == old(self).cols,
            final(self).view == old(self).view,
            final(self).filename@ == old(self).filename@,
            final(self).quit == old(self).quit,
    {
        let row = self.cursor.row;
        let col = self.cursor.col;
        proof {
            lemma_line_bounds(self.buffer@, row as nat);
        }
        let total = self.buffer.len_chars();
        let _lines = self.buffer.line_count();
        let s = Ghost(self.buffer@);
        match key {
            Key::Esc => {
                self.cursor = Cursor::clamp(&self.buffer, row, col, false);
                Mode::Normal
            },
            Key::Enter | Key::Char(_) => {
                let ch = match key {
                    Key::Char(ch) => ch,
                    _ => '\n',
                };
                let i: usize = rope_index(&self.buffer, row, col);
                let _ = self.buffer.insert_char(row, col, ch);
                let _grown = self.buffer.len_chars();
                proof {
                    lemma_insert_nl_count(s@, i as int, ch);
                    lemma_insert_keeps_line_start(s@, row as nat, i as int, ch);
                    if ch == '\n' {
                        lemma_line_bounds(self.buffer@, (row + 1) as nat);
                    } else {
                        lemma_insert_extends_line(s@, row as nat, i as int, ch);
                    }
                }
                if ch == '\n' {
                    self.cursor = Cursor { row: row + 1, col: 0 };
                } else {
                    self.cursor = Cursor { row, col: col + 1 };
                }
                Mode::Insert
            },
            Key::Backspace => {
                if col > 0 {
                    let i: usize = rope_index(&self.buffer, row, col - 1);
                    let _ = self.buffer.delete_range(row, col - 1, col);
                    proof {
                        lemma_remove_in_line(s@, row as nat, i as int);
                        lemma_remove_nl_count(s@, i as int);
                    }
                    self.cursor = Cursor { row, col: col - 1 };
                } else if row > 0 {
                    proof {
                        lemma_line_bounds(s@, (row - 1) as nat);
                    }
                    let plen = self.buffer.line_len(row - 1);
                    let i: usize = rope_index(&self.buffer, row - 1, plen);
                    let _ = self.buffer.delete_range(row - 1, plen, plen + 1);
                    proof {
                        lemma_remove_in_line(s@, (row - 1) as nat, i as int);
                        lemma_remove_nl_count(s@, i as int);
                    }
                    self.cursor = Cursor { row: row - 1, col: plen };
                }
                Mode::Insert
            },
            Key::Delete => {
                let i: usize = rope_index(&self.buffer, row, col);
                if i < total {
                    let _ = self.buffer.delete_range(row, col, col + 1);
                    proof {
                        lemma_remove_in_line(s@, row as nat, i as int);
                        lemma_remove_nl_count(s@, i as int);
                    }
                }
                Mode::Insert
            },
            Key::Up => {
                self.cursor.move_by(&self.buffer, true, Direction::Up, 1);
                Mode::Insert
            },
            Key::Down => {
                self.cursor.move_by(&self.buffer, true, Direction::Down, 1);
                Mode::Insert
            },
            Key::Left => {
                self.cursor.move_by(&self.buffer, true, Direction::Left, 1);
                Mode::Insert
            },
            Key::Right => {
                self.cursor.move_by(&self.buffer, true, Direction::Right, 1);
                Mode::Insert
            },
            Key::Other => Mode::Insert,
        }
    }

    /// Handles one key press in the current mode, then scrolls the viewport
    /// to keep the cursor visible. Returns the action of a command line
    /// completed with Enter, `Nothing` otherwise.
    pub fn process_key(&mut self, key: Key) -> (r: Action)
        requires
            editor_wf(*old(self)),
        ensures
            editor_wf(*final(self)),
            stepped(*old(self), *final(self), key, r),
    {
        proof {
            lemma_line_bounds(self.buffer@, self.cursor.row as nat);
        }
        let mut mode = Mode::Normal;
        std::mem::swap(&mut self.mode, &mut mode);
        let mut r = Action::Nothing;
        match mode {
            Mode::Normal => {
                self.mode = match key {
                    Key::Char(ch) => if ch == 'i' {
                        Mode::Insert
                    } else if ch == ':' {
                        let mut p = String::new();
                        push_char(&mut p, ':');
                        Mode::Command(p)
                    } else {
                        Mode::Normal
                    },
                    _ => Mode::Normal,
                };
            },
            Mode::Insert => {
                self.mode = Mode::Insert;
                let m = self.insert_key(key);
                self.mode = m;
            },
            Mode::Command(mut p) => {
                self.mode = match key {
                    Key::Enter => {
                        r = interpret(p.as_str());
                        if let Action::Quit = r {
                            self.quit = true;
                        }
                        Mode::Normal
                    },
                    Key::Esc => Mode::Normal,
                    Key::Backspace => {
                        if p.as_str().unicode_len() > 1 {
                            let _ = pop_char(&mut p);
                        }
                        Mode::Command(p)
                    },
                    Key::Char(ch) => {
                        push_char(&mut p, ch);
                        Mode::Command(p)
                    },
                    _ => Mode::Command(p),
                };
            },
        }
        self.view = self.view.recompute(self.cursor, self.rows, self.cols);
        r
    }
}

} // verus!
