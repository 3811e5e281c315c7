use vh::command::{interpret, Action};
use vh::cursor::{Cursor, Direction};
use vh::editor::{Editor, Key, Mode};
use vh::text::{BufferError, TextBuffer};
use vh::viewport::{scroll_axis, Viewport};

fn lines_of(buf: &TextBuffer) -> Vec<String> {
    let mut out = Vec::new();
    for n in 0..buf.line_count() {
        out.push(buf.line(n).unwrap());
    }
    out
}

fn editor_with(text: &str, row: usize, col: usize, mode: Mode) -> Editor {
    let mut e = Editor::open(String::from("f.txt"), TextBuffer::load(text));
    e.resize(80, 24);
    e.cursor = Cursor { row, col };
    e.mode = mode;
    e
}

#[test]
fn enter_splits_line_at_end() {
    let mut e = editor_with("abc\nde", 0, 3, Mode::Insert);
    let r = e.process_key(Key::Enter);
    assert_eq!(r, Action::Nothing);
    assert_eq!(lines_of(&e.buffer), vec!["abc", "", "de"]);
    assert_eq!(e.cursor, Cursor { row: 1, col: 0 });
    assert!(matches!(e.mode, Mode::Insert));
}

#[test]
fn backspace_at_end_of_line() {
    let mut e = editor_with("hello", 0, 5, Mode::Insert);
    e.process_key(Key::Backspace);
    assert_eq!(lines_of(&e.buffer), vec!["hell"]);
    assert_eq!(e.cursor, Cursor { row: 0, col: 4 });
}

#[test]
fn command_q_quits() {
    let mut e = editor_with("x", 0, 0, Mode::Command(String::from(":q")));
    let r = e.process_key(Key::Enter);
    assert_eq!(r, Action::Quit);
    assert!(e.quit);
    assert!(matches!(e.mode, Mode::Normal));
}

#[test]
fn command_unknown_is_reported() {
    let mut e = editor_with("x", 0, 0, Mode::Command(String::from(":zz")));
    let r = e.process_key(Key::Enter);
    assert_eq!(r, Action::Unknown(String::from("zz")));
    assert!(!e.quit);
    assert!(matches!(e.mode, Mode::Normal));
}

#[test]
fn typed_command_then_enter() {
    let mut e = editor_with("x", 0, 0, Mode::Normal);
    e.process_key(Key::Char(':'));
    assert!(matches!(&e.mode, Mode::Command(t) if t == ":"));
    e.process_key(Key::Char('q'));
    e.process_key(Key::Char('x'));
    e.process_key(Key::Backspace);
    assert!(matches!(&e.mode, Mode::Command(t) if t == ":q"));
    assert_eq!(e.process_key(Key::Enter), Action::Quit);
    assert!(e.quit);
}

#[test]
fn command_backspace_keeps_marker() {
    let mut e = editor_with("x", 0, 0, Mode::Command(String::from(":")));
    e.process_key(Key::Backspace);
    assert!(matches!(&e.mode, Mode::Command(t) if t == ":"));
}

#[test]
fn command_escape_discards() {
    let mut e = editor_with("x", 0, 0, Mode::Command(String::from(":q")));
    assert_eq!(e.process_key(Key::Esc), Action::Nothing);
    assert!(!e.quit);
    assert!(matches!(e.mode, Mode::Normal));
}

#[test]
fn insert_then_delete_round_trip() {
    let mut b = TextBuffer::load("ab\ncd");
    b.insert_char(1, 1, 'x').unwrap();
    assert_eq!(b.to_text(), "ab\ncxd");
    b.delete_range(1, 1, 2).unwrap();
    assert_eq!(b.to_text(), "ab\ncd");
    b.insert_char(0, 2, '\n').unwrap();
    assert_eq!(b.to_text(), "ab\n\ncd");
    b.delete_range(0, 2, 3).unwrap();
    assert_eq!(b.to_text(), "ab\ncd");
}

#[test]
fn buffer_out_of_range() {
    let mut b = TextBuffer::load("ab\ncd");
    assert_eq!(b.line(2), Err(BufferError::OutOfRange));
    assert_eq!(b.insert_char(2, 0, 'x'), Err(BufferError::OutOfRange));
    assert_eq!(b.insert_char(0, 3, 'x'), Err(BufferError::OutOfRange));
    assert_eq!(b.delete_range(1, 1, 3), Err(BufferError::OutOfRange));
    assert_eq!(b.delete_range(0, 2, 1), Err(BufferError::OutOfRange));
    assert_eq!(b.to_text(), "ab\ncd");
}

#[test]
fn empty_buffer_has_one_line() {
    let b = TextBuffer::new();
    assert_eq!(b.line_count(), 1);
    assert_eq!(b.line_len(0), 0);
    assert_eq!(b.line(0), Ok(String::new()));
    let e = Editor::default(String::from("new.txt"));
    assert_eq!(e.buffer.line_count(), 1);
    assert_eq!(e.filename, "new.txt");
}

#[test]
fn line_lengths_and_count() {
    let b = TextBuffer::load("one\n\nthree\n");
    assert_eq!(b.line_count(), 4);
    assert_eq!(b.line_len(0), 3);
    assert_eq!(b.line_len(1), 0);
    assert_eq!(b.line_len(2), 5);
    assert_eq!(b.line_len(3), 0);
    assert_eq!(b.len_chars(), 11);
    assert_eq!(b.line(2), Ok(String::from("three")));
}

#[test]
fn moves_saturate_at_edges() {
    let b = TextBuffer::load("abc\nde\n");
    let mut c = Cursor { row: 0, col: 0 };
    c.move_by(&b, false, Direction::Up, 5);
    assert_eq!(c, Cursor { row: 0, col: 0 });
    c.move_by(&b, false, Direction::Left, 1);
    assert_eq!(c, Cursor { row: 0, col: 0 });
    c.move_by(&b, false, Direction::Right, 100);
    assert_eq!(c, Cursor { row: 0, col: 2 });
    c.move_by(&b, true, Direction::Right, usize::MAX);
    assert_eq!(c, Cursor { row: 0, col: 3 });
    c.move_by(&b, false, Direction::Down, 1);
    assert_eq!(c, Cursor { row: 1, col: 1 });
    c.move_by(&b, false, Direction::Down, usize::MAX);
    assert_eq!(c, Cursor { row: 2, col: 0 });
}

#[test]
fn clamp_on_leaving_insert() {
    let mut e = editor_with("abc", 0, 3, Mode::Insert);
    e.process_key(Key::Esc);
    assert!(matches!(e.mode, Mode::Normal));
    assert_eq!(e.cursor, Cursor { row: 0, col: 2 });
}

#[test]
fn arrows_in_insert_mode() {
    let mut e = editor_with("abc\nd", 0, 3, Mode::Insert);
    e.process_key(Key::Down);
    assert_eq!(e.cursor, Cursor { row: 1, col: 1 });
    e.process_key(Key::Left);
    e.process_key(Key::Left);
    assert_eq!(e.cursor, Cursor { row: 1, col: 0 });
    e.process_key(Key::Up);
    e.process_key(Key::Up);
    assert_eq!(e.cursor, Cursor { row: 0, col: 0 });
}

#[test]
fn backspace_at_line_start_joins() {
    let mut e = editor_with("ab\ncd", 1, 0, Mode::Insert);
    e.process_key(Key::Backspace);
    assert_eq!(lines_of(&e.buffer), vec!["abcd"]);
    assert_eq!(e.cursor, Cursor { row: 0, col: 2 });
    let mut f = editor_with("ab", 0, 0, Mode::Insert);
    f.process_key(Key::Backspace);
    assert_eq!(lines_of(&f.buffer), vec!["ab"]);
    assert_eq!(f.cursor, Cursor { row: 0, col: 0 });
}

#[test]
fn delete_key_removes_after_cursor() {
    let mut e = editor_with("ab\ncd", 0, 2, Mode::Insert);
    e.process_key(Key::Delete);
    assert_eq!(lines_of(&e.buffer), vec!["abcd"]);
    e.process_key(Key::Delete);
    assert_eq!(lines_of(&e.buffer), vec!["abd"]);
    let mut f = editor_with("ab", 0, 2, Mode::Insert);
    f.process_key(Key::Delete);
    assert_eq!(lines_of(&f.buffer), vec!["ab"]);
}

#[test]
fn typing_inserts_characters() {
    let mut e = editor_with("", 0, 0, Mode::Normal);
    e.process_key(Key::Char('i'));
    assert!(matches!(e.mode, Mode::Insert));
    e.process_key(Key::Char('h'));
    e.process_key(Key::Char('i'));
    assert_eq!(e.buffer.to_text(), "hi");
    assert_eq!(e.cursor, Cursor { row: 0, col: 2 });
}

#[test]
fn unlisted_keys_change_nothing() {
    let mut e = editor_with("abc", 0, 1, Mode::Normal);
    for k in [Key::Char('x'), Key::Enter, Key::Backspace, Key::Delete, Key::Left, Key::Other] {
        assert_eq!(e.process_key(k), Action::Nothing);
        assert!(matches!(e.mode, Mode::Normal));
        assert_eq!(e.buffer.to_text(), "abc");
        assert_eq!(e.cursor, Cursor { row: 0, col: 1 });
    }
    let mut c = editor_with("abc", 0, 1, Mode::Command(String::from(":w")));
    c.process_key(Key::Up);
    c.process_key(Key::Other);
    assert!(matches!(&c.mode, Mode::Command(t) if t == ":w"));
    let mut i = editor_with("abc", 0, 1, Mode::Insert);
    i.process_key(Key::Other);
    assert_eq!(i.buffer.to_text(), "abc");
    assert_eq!(i.cursor, Cursor { row: 0, col: 1 });
}

#[test]
fn viewport_scrolls_minimally() {
    let v = Viewport { row_offset: 5, col_offset: 0 };
    let r = v.recompute(Cursor { row: 2, col: 0 }, 10, 10);
    assert_eq!(r, Viewport { row_offset: 2, col_offset: 0 });
    let r = v.recompute(Cursor { row: 20, col: 30 }, 10, 10);
    assert_eq!(r, Viewport { row_offset: 11, col_offset: 21 });
    let r = v.recompute(Cursor { row: 9, col: 3 }, 10, 10);
    assert_eq!(r, Viewport { row_offset: 5, col_offset: 0 });
    assert_eq!(scroll_axis(0, 0, 1), 0);
    assert_eq!(scroll_axis(0, 7, 1), 7);
    assert_eq!(r.screen_position(Cursor { row: 9, col: 3 }), (3, 4));
}

#[test]
fn editor_scrolls_with_cursor() {
    let mut e = editor_with("a\nb\nc\nd\ne", 0, 0, Mode::Insert);
    e.resize(10, 4);
    assert_eq!(e.rows, 2);
    e.process_key(Key::Down);
    e.process_key(Key::Down);
    e.process_key(Key::Down);
    assert_eq!(e.cursor.row, 3);
    assert_eq!(e.view.row_offset, 2);
    e.process_key(Key::Up);
    e.process_key(Key::Up);
    e.process_key(Key::Up);
    assert_eq!(e.view.row_offset, 0);
}

#[test]
fn interpret_commands() {
    assert_eq!(interpret(":q"), Action::Quit);
    assert_eq!(interpret(":w out.txt"), Action::Write(String::from("out.txt")));
    assert_eq!(interpret(":w"), Action::Write(String::new()));
    assert_eq!(interpret(":"), Action::Nothing);
    assert_eq!(interpret(":zz"), Action::Unknown(String::from("zz")));
    assert_eq!(interpret(":q now"), Action::Unknown(String::from("q now")));
    assert_eq!(interpret(":wq"), Action::Unknown(String::from("wq")));
}

#[test]
fn mode_names() {
    assert_eq!(Mode::Normal.as_str(), "NORMAL");
    assert_eq!(Mode::Insert.as_str(), "INSERT");
    assert_eq!(Mode::Command(String::from(":")).as_str(), "COMMAND");
}

#[test]
fn columns_count_characters_not_bytes() {
    let mut b = TextBuffer::load("héllo\nwörld");
    assert_eq!(b.line_len(0), 5);
    b.insert_char(1, 2, 'ö').unwrap();
    assert_eq!(b.line(1), Ok(String::from("wöörld")));
    b.delete_range(0, 1, 2).unwrap();
    assert_eq!(b.to_text(), "hllo\nwöörld");
}
