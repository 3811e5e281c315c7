//! The text buffer: a rope of characters, addressed by line and column.
//!
//! Only `'\n'` separates lines. A buffer always has at least one line: the
//! number of lines is one more than the number of line breaks.
use vstd::prelude::*;
use ropey::Rope;
use crate::strings::push_char;

verus! {

#[verifier::external_type_specification]
#[verifier::external_body]
pub struct ExRope(ropey::Rope);

/// The characters that a rope holds, in order.
pub uninterp spec fn rope_text(r: ropey::Rope) -> Seq<char>;

/// Number of line breaks in `s`.
pub open spec fn nl_count(s: Seq<char>) -> nat
    decreases s.len(),
{
    if s.len() == 0 {
        0
    } else {
        (if s[0] == '\n' { 1nat } else { 0nat }) + nl_count(s.drop_first())
    }
}

/// Number of lines in `s`.
pub open spec fn line_count(s: Seq<char>) -> nat {
    nl_count(s) + 1
}

/// Index of the first character of line `n` (the index just after the
/// `n`-th line break); `s.len()` for every `n` past the last line.
pub open spec fn line_start(s: Seq<char>, n: nat) -> nat
    decreases s.len(),
{
    if n == 0 || s.len() == 0 {
        0
    } else if s[0] == '\n' {
        1 + line_start(s.drop_first(), (n - 1) as nat)
    } else {
        1 + line_start(s.drop_first(), n)
    }
}

/// Index of the line break that ends line `n`, or `s.len()` for the last line.
pub open spec fn line_end(s: Seq<char>, n: nat) -> nat
    decreases s.len(),
{
    if s.len() == 0 {
        0
    } else if s[0] == '\n' {
        if n == 0 {
            0
        } else {
            1 + line_end(s.drop_first(), (n - 1) as nat)
        }
    } else {
        1 + line_end(s.drop_first(), n)
    }
}

/// Number of characters of line `n`, line break excluded.
pub open spec fn line_len(s: Seq<char>, n: nat) -> int {
    line_end(s, n) - line_start(s, n)
}

/// `s` with the characters at indices `[a, b)` taken out.
pub open spec fn remove_range(s: Seq<char>, a: int, b: int) -> Seq<char> {
    s.subrange(0, a) + s.subrange(b, s.len() as int)
}

/// The buffer after `ch` is inserted at column `col` of line `row`.
pub open spec fn inserted(s: Seq<char>, row: nat, col: nat, ch: char) -> Seq<char> {
    s.insert(line_start(s, row) + col as int, ch)
}

/// Whether `insert_char(row, col, _)` is in range.
pub open spec fn insert_in_range(s: Seq<char>, row: nat, col: nat) -> bool {
    row < line_count(s) && col <= line_len(s, row)
}

/// The buffer after columns `[cs, ce)` of line `row` are removed; a range that
/// runs past the end of the line takes the line break with it and joins the
/// next line.
pub open spec fn deleted(s: Seq<char>, row: nat, cs: nat, ce: nat) -> Seq<char> {
    remove_range(s, line_start(s, row) + cs as int, line_start(s, row) + ce as int)
}

/// Whether `delete_range(row, cs, ce)` is in range.
pub open spec fn delete_in_range(s: Seq<char>, row: nat, cs: nat, ce: nat) -> bool {
    row < line_count(s) && cs <= ce && line_start(s, row) + ce <= s.len()
}

/// Where lines start and end, for every line that exists.
pub proof fn lemma_line_bounds(s: Seq<char>, n: nat)
    requires
        n <= nl_count(s),
    ensures
        line_start(s, n) <= line_end(s, n) <= s.len(),
        n < nl_count(s) ==> line_end(s, n) < s.len() && s[line_end(s, n) as int] == '\n'
            && line_start(s, n + 1) == line_end(s, n) + 1,
        n == nl_count(s) ==> line_end(s, n) == s.len(),
    decreases s.len(),
{
    if s.len() > 0 {
        let t = s.drop_first();
        if s[0] == '\n' {
            if n > 0 {
                lemma_line_bounds(t, (n - 1) as nat);
            }
        } else {
            lemma_line_bounds(t, n);
        }
    }
}

/// Inserting a character adds a line break exactly when the character is one.
pub proof fn lemma_insert_nl_count(s: Seq<char>, i: int, c: char)
    requires
        0 <= i <= s.len(),
    ensures
        nl_count(s.insert(i, c)) == nl_count(s) + (if c == '\n' { 1nat } else { 0nat }),
    decreases s.len(),
{
    let u = s.insert(i, c);
    if i == 0 {
        assert(u.drop_first() =~= s);
    } else {
        assert(u.drop_first() =~= s.drop_first().insert(i - 1, c));
        lemma_insert_nl_count(s.drop_first(), i - 1, c);
    }
}

/// Inserting at or after the start of a line leaves that start in place.
pub proof fn lemma_insert_keeps_line_start(s: Seq<char>, row: nat, i: int, c: char)
    requires
        row <= nl_count(s),
        line_start(s, row) <= i <= s.len(),
    ensures
        line_start(s.insert(i, c), row) == line_start(s, row),
    decreases s.len(),
{
    let u = s.insert(i, c);
    if row > 0 {
        assert(s.len() > 0);
        assert(i > 0);
        assert(u.drop_first() =~= s.drop_first().insert(i - 1, c));
        if s[0] == '\n' {
            lemma_insert_keeps_line_start(s.drop_first(), (row - 1) as nat, i - 1, c);
        } else {
            lemma_insert_keeps_line_start(s.drop_first(), row, i - 1, c);
        }
    }
}

/// Inserting a character other than a line break inside a line lengthens
/// that line by one.
pub proof fn lemma_insert_extends_line(s: Seq<char>, row: nat, i: int, c: char)
    requires
        c != '\n',
        row <= nl_count(s),
        line_start(s, row) <= i <= line_end(s, row),
    ensures
        line_end(s.insert(i, c), row) == line_end(s, row) + 1,
    decreases s.len(),
{
    lemma_line_bounds(s, row);
    let u = s.insert(i, c);
    if i == 0 {
        assert(u.drop_first() =~= s);
    } else {
        assert(u.drop_first() =~= s.drop_first().insert(i - 1, c));
        if s[0] == '\n' {
            lemma_insert_extends_line(s.drop_first(), (row - 1) as nat, i - 1, c);
        } else {
            lemma_insert_extends_line(s.drop_first(), row, i - 1, c);
        }
    }
}

/// Removing one character at or after the start of a line, up to and
/// including its line break, keeps the line's start; the line still reaches
/// the removed index, and it is one shorter when the removed character was
/// not the line break.
pub proof fn lemma_remove_in_line(s: Seq<char>, row: nat, i: int)
    requires
        row <= nl_count(s),
        line_start(s, row) <= i <= line_end(s, row),
        i < s.len(),
    ensures
        line_start(remove_range(s, i, i + 1), row) == line_start(s, row),
        line_end(remove_range(s, i, i + 1), row) >= i,
        i < line_end(s, row) ==> line_end(remove_range(s, i, i + 1), row) == line_end(s, row) - 1
            && s[i] != '\n',
    decreases s.len(),
{
    lemma_line_bounds(s, row);
    let u = remove_range(s, i, i + 1);
    if i == 0 {
        assert(u =~= s.drop_first());
    } else {
        assert(u.drop_first() =~= remove_range(s.drop_first(), i - 1, i));
        assert(u[0] == s[0]);
        if s[0] == '\n' {
            lemma_remove_in_line(s.drop_first(), (row - 1) as nat, i - 1);
        } else {
            lemma_remove_in_line(s.drop_first(), row, i - 1);
        }
    }
}

/// Removing one character takes away a line break exactly when it is one.
pub proof fn lemma_remove_nl_count(s: Seq<char>, i: int)
    requires
        0 <= i < s.len(),
    ensures
        nl_count(remove_range(s, i, i + 1)) + (if s[i] == '\n' { 1nat } else { 0nat }) == nl_count(s),
{
    let u = remove_range(s, i, i + 1);
    assert(u.insert(i, s[i]) =~= s);
    lemma_insert_nl_count(u, i, s[i]);
}

/// Inserting a character and then removing the range that it occupies gives
/// back the buffer as it was, for every position that is in range.
pub proof fn lemma_insert_then_delete(s: Seq<char>, row: nat, col: nat, ch: char)
    requires
        insert_in_range(s, row, col),
    ensures
        delete_in_range(inserted(s, row, col, ch), row, col, col + 1),
        deleted(inserted(s, row, col, ch), row, col, col + 1) == s,
{
    lemma_line_bounds(s, row);
    let i: int = line_start(s, row) + col as int;
    let u = inserted(s, row, col, ch);
    lemma_insert_nl_count(s, i, ch);
    lemma_insert_keeps_line_start(s, row, i, ch);
    assert(remove_range(u, i, i + 1) =~= s);
}

/// Why a buffer operation was refused.
#[derive(Debug, Clone, Copy, PartialEq, Eq, Structural)]
pub enum BufferError {
    /// A line or column index lies outside the buffer.
    OutOfRange,
}

/// Relies on `ropey::Rope::new`: an empty rope.
#[verifier::external_body]
fn rope_new() -> (r: Rope)
    ensures
        rope_text(r) == Seq::<char>::empty(),
{
    Rope::new()
}

/// Relies on `ropey::Rope::from_str`: a rope holding the characters of `s`.
#[verifier::external_body]
fn rope_from_str(s: &str) -> (r: Rope)
    ensures
        rope_text(r) == s@,
{
    Rope::from_str(s)
}

/// Relies on `ropey::Rope::len_chars`: the number of characters.
#[verifier::external_body]
fn rope_len_chars(r: &Rope) -> (n: usize)
    ensures
        n == rope_text(*r).len(),
{
    r.len_chars()
}

/// Relies on `ropey::Rope::len_lines`: line breaks plus one (with ropey's
/// line-break features off, only `'\n'` is a line break).
#[verifier::external_body]
fn rope_len_lines(r: &Rope) -> (n: usize)
    ensures
        n == line_count(rope_text(*r)),
{
    r.len_lines()
}

/// Relies on `ropey::Rope::line_to_char`: the char index where a line starts;
/// one past the last line gives the length. It panics further out.
#[verifier::external_body]
fn rope_line_to_char(r: &Rope, line: usize) -> (n: usize)
    requires
        line <= line_count(rope_text(*r)),
    ensures
        n == line_start(rope_text(*r), line as nat),
{
    r.line_to_char(line)
}

/// Relies on `ropey::Rope::char`: the character at an index. It panics out of
/// bounds.
#[verifier::external_body]
fn rope_char(r: &Rope, i: usize) -> (c: char)
    requires
        i < rope_text(*r).len(),
    ensures
        c == rope_text(*r)[i as int],
{
    r.char(i)
}

/// Relies on `ropey::Rope::insert_char`: inserts one character at an index.
/// It panics past the end.
#[verifier::external_body]
fn rope_insert_char(r: &mut Rope, i: usize, ch: char)
    requires
        i <= rope_text(*old(r)).len(),
    ensures
        rope_text(*final(r)) == rope_text(*old(r)).insert(i as int, ch),
{
    r.insert_char(i, ch)
}

/// Relies on `ropey::Rope::remove`: removes the chars in `a..b`. It panics on
/// a reversed range or one that runs past the end.
#[verifier::external_body]
fn rope_remove(r: &mut Rope, a: usize, b: usize)
    requires
        a <= b <= rope_text(*old(r)).len(),
    ensures
        rope_text(*final(r)) == remove_range(rope_text(*old(r)), a as int, b as int),
{
    r.remove(a..b)
}

/// Relies on `From<&Rope> for String`: the rope's text as a string.
#[verifier::external_body]
fn rope_to_string(r: &Rope) -> (s: String)
    ensures
        s@ == rope_text(*r),
{
    String::from(r)
}

/// An editable text, as a sequence of lines.
pub struct TextBuffer {
    rope: Rope,
}

impl View for TextBuffer {
    type V = Seq<char>;

    closed spec fn view(&self) -> Seq<char> {
        rope_text(self.rope)
    }
}

impl TextBuffer {
    /// An empty buffer: one empty line.
    pub fn new() -> (r: TextBuffer)
        ensures
            r@ == Seq::<char>::empty(),
    {
        TextBuffer { rope: rope_new() }
    }

    /// A buffer holding `content`; every string is valid text.
    pub fn load(content: &str) -> (r: TextBuffer)
        ensures
            r@ == content@,
    {
        TextBuffer { rope: rope_from_str(content) }
    }

    /// Number of lines, at least one.
    pub fn line_count(&self) -> (n: usize)
        ensures
            n == line_count(self@),
    {
        rope_len_lines(&self.rope)
    }

    /// Number of characters in the buffer, line breaks included.
    pub fn len_chars(&self) -> (n: usize)
        ensures
            n == self@.len(),
    {
        rope_len_chars(&self.rope)
    }

    /// Index in the text of the first character of line `n`.
    pub fn line_start(&self, n: usize) -> (r: usize)
        requires
            n < line_count(self@),
        ensures
            r == line_start(self@, n as nat),
    {
        rope_line_to_char(&self.rope, n)
    }

    /// Number of characters of line `n`, line break excluded.
    pub fn line_len(&self, n: usize) -> (r: usize)
        requires
            n < line_count(self@),
        ensures
            r == line_len(self@, n as nat),
    {
        proof {
            lemma_line_bounds(self@, n as nat);
        }
        let lines = rope_len_lines(&self.rope);
        let start = rope_line_to_char(&self.rope, n);
        if n + 1 < lines {
            let next = rope_line_to_char(&self.rope, n + 1);
            next - 1 - start
        } else {
            rope_len_chars(&self.rope) - start
        }
    }

    /// The text of line `n`, without its line break.
    pub fn line(&self, n: usize) -> (r: Result<String, BufferError>)
        ensures
            n < line_count(self@) ==> (r matches Ok(t) && t@ == self@.subrange(
                line_start(self@, n as nat) as int,
                line_end(self@, n as nat) as int,
            )),
            n >= line_count(self@) ==> r == Err::<String, BufferError>(BufferError::OutOfRange),
    {
        if n >= rope_len_lines(&self.rope) {
            return Err(BufferError::OutOfRange);
        }
        proof {
            lemma_line_bounds(self@, n as nat);
        }
        let total = rope_len_chars(&self.rope);
        let start = rope_line_to_char(&self.rope, n);
        let len = self.line_len(n);
        let mut out = String::new();
        let mut k: usize = 0;
        while k < len
            invariant
                k <= len,
                start + len <= self@.len(),
                total == self@.len(),
                len == line_len(self@, n as nat),
                start == line_start(self@, n as nat),
                out@ == self@.subrange(start as int, start + k),
            decreases len - k,
        {
            let c = rope_char(&self.rope, start + k);
            push_char(&mut out, c);
            k = k + 1;
            assert(out@ =~= self@.subrange(start as int, start + k));
        }
        Ok(out)
    }

    /// Inserts `ch` at column `col` of line `row`. A line break splits the
    /// line there in two.
    pub fn insert_char(&mut self, row: usize, col: usize, ch: char) -> (r: Result<(), BufferError>)
        ensures
            r is Ok <==> insert_in_range(old(self)@, row as nat, col as nat),
            r is Ok ==> final(self)@ == inserted(old(self)@, row as nat, col as nat, ch),
            r is Err ==> r == Err::<(), BufferError>(BufferError::OutOfRange) && final(self)@
                == old(self)@,
    {
        if row >= rope_len_lines(&self.rope) {
            return Err(BufferError::OutOfRange);
        }
        let len = self.line_len(row);
        if col > len {
            return Err(BufferError::OutOfRange);
        }
        proof {
            lemma_line_bounds(self@, row as nat);
        }
        let total = rope_len_chars(&self.rope);
        let start = rope_line_to_char(&self.rope, row);
        rope_insert_char(&mut self.rope, start + col, ch);
        Ok(())
    }

    /// Removes columns `[cs, ce)` of line `row`. A range that runs past the end
    /// of the line removes the line break as well and joins the next line.
    pub fn delete_range(&mut self, row: usize, cs: usize, ce: usize) -> (r: Result<(), BufferError>)
        ensures
            r is Ok <==> delete_in_range(old(self)@, row as nat, cs as nat, ce as nat),
            r is Ok ==> final(self)@ == deleted(old(self)@, row as nat, cs as nat, ce as nat),
            r is Err ==> r == Err::<(), BufferError>(BufferError::OutOfRange) && final(self)@
                == old(self)@,
    {
        if row >= rope_len_lines(&self.rope) || cs > ce {
            return Err(BufferError::OutOfRange);
        }
        let start = rope_line_to_char(&self.rope, row);
        let total = rope_len_chars(&self.rope);
        if start > total || ce > total - start {
            return Err(BufferError::OutOfRange);
        }
        rope_remove(&mut self.rope, start + cs, start + ce);
        Ok(())
    }

    /// The whole text, lines joined by line breaks, as the file holds it.
    pub fn to_text(&self) -> (r: String)
        ensures
            r@ == self@,
    {
        rope_to_string(&self.rope)
    }
}

} // verus!
