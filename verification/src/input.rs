use vstd::prelude::*;
use crate::text::{chars_of, split_chars, split_spec, string_from_chars, views};

verus! {

/// A line (or block) of text being edited, and a cursor counted in chars.
pub struct InputLine {
    text: Vec<char>,
    cursor: usize,
}

/// The cursor moved back onto the text.
pub open spec fn clamp(cursor: int, len: int) -> int {
    if cursor < len {
        cursor
    } else {
        len
    }
}

/// The text and cursor after typing `c`.
pub open spec fn insert_spec(text: Seq<char>, cursor: int, c: char) -> (Seq<char>, int) {
    let k = clamp(cursor, text.len() as int);
    (text.insert(k, c), if k < usize::MAX { k + 1 } else { k })
}

/// The text and cursor after Backspace.
pub open spec fn backspace_spec(text: Seq<char>, cursor: int) -> (Seq<char>, int) {
    let k = clamp(cursor, text.len() as int);
    if k == 0 {
        (text, k)
    } else {
        (text.remove(k - 1), k - 1)
    }
}

/// The text and cursor after Delete.
pub open spec fn delete_spec(text: Seq<char>, cursor: int) -> (Seq<char>, int) {
    let k = clamp(cursor, text.len() as int);
    if k >= text.len() {
        (text, k)
    } else {
        (text.remove(k), k)
    }
}

/// The cursor after Left.
pub open spec fn move_left_spec(cursor: int) -> int {
    if cursor > 0 {
        cursor - 1
    } else {
        0
    }
}

/// Line (count of `'\n'`) and column (chars since the last `'\n'`) of the
/// end of `s`.
pub open spec fn line_col(s: Seq<char>) -> (int, int)
    decreases s.len(),
{
    if s.len() == 0 {
        (0, 0)
    } else {
        let p = line_col(s.drop_last());
        if s.last() == '\n' {
            (p.0 + 1, 0)
        } else {
            (p.0, p.1 + 1)
        }
    }
}

pub proof fn lemma_line_col_bounds(s: Seq<char>)
    ensures
        0 <= line_col(s).0 <= s.len(),
        0 <= line_col(s).1 <= s.len(),
        line_col(s).0 + 1 == split_spec(s, '\n').len(),
    decreases s.len(),
{
    if s.len() > 0 {
        lemma_line_col_bounds(s.drop_last());
    }
}

impl InputLine {
    /// The text.
    pub closed spec fn text_view(&self) -> Seq<char> {
        self.text@
    }

    /// The cursor.
    pub closed spec fn cursor_view(&self) -> int {
        self.cursor as int
    }

    /// Starts editing `initial` with the cursor at its end.
    pub fn new(initial: &str) -> (r: InputLine)
        ensures
            r.text_view() == initial@,
            r.cursor_view() == initial@.len(),
    {
        let text = chars_of(initial);
        let cursor = text.len();
        InputLine { text, cursor }
    }

    /// The text as a `String`.
    pub fn text(&self) -> (s: String)
        ensures
            s@ == self.text_view(),
    {
        string_from_chars(self.text.as_slice())
    }

    /// The cursor, in chars.
    /// The number of chars of the text.
    pub fn text_len(&self) -> (n: usize)
        ensures
            n == self.text_view().len(),
    {
        self.text.len()
    }

    pub fn cursor(&self) -> (c: usize)
        ensures
            c == self.cursor_view(),
    {
        self.cursor
    }

    /// Replaces the text, leaving the cursor where it was.
    pub fn set_text(&mut self, text: &str)
        ensures
            final(self).text_view() == text@,
            final(self).cursor_view() == old(self).cursor_view(),
    {
        self.text = chars_of(text);
    }

    /// Empties the text and puts the cursor at the start.
    pub fn clear(&mut self)
        ensures
            final(self).text_view().len() == 0,
            final(self).cursor_view() == 0,
    {
        self.text = Vec::new();
        self.cursor = 0;
    }

    /// Moves the cursor back onto the text.
    pub fn clamp_cursor(&mut self)
        ensures
            final(self).text_view() == old(self).text_view(),
            final(self).cursor_view() == clamp(old(self).cursor_view(), old(self).text_view().len() as int),
    {
        if self.cursor > self.text.len() {
            self.cursor = self.text.len();
        }
    }

    /// Types `c` at the cursor.
    pub fn insert_char(&mut self, c: char)
        ensures
            (final(self).text_view(), final(self).cursor_view()) == insert_spec(
                old(self).text_view(),
                old(self).cursor_view(),
                c,
            ),
    {
        self.clamp_cursor();
        self.text.insert(self.cursor, c);
        self.cursor = self.cursor.saturating_add(1);
    }

    /// Removes the char before the cursor.
    pub fn backspace(&mut self)
        ensures
            (final(self).text_view(), final(self).cursor_view()) == backspace_spec(
                old(self).text_view(),
                old(self).cursor_view(),
            ),
    {
        self.clamp_cursor();
        if self.cursor == 0 {
            return;
        }
        self.text.remove(self.cursor - 1);
        self.cursor = self.cursor - 1;
    }

    /// Removes the char under the cursor.
    pub fn delete(&mut self)
        ensures
            (final(self).text_view(), final(self).cursor_view()) == delete_spec(
                old(self).text_view(),
                old(self).cursor_view(),
            ),
    {
        self.clamp_cursor();
        if self.cursor >= self.text.len() {
            return;
        }
        self.text.remove(self.cursor);
    }

    /// Moves the cursor one char left.
    pub fn move_left(&mut self)
        ensures
            final(self).text_view() == old(self).text_view(),
            final(self).cursor_view() == move_left_spec(old(self).cursor_view()),
    {
        self.cursor = self.cursor.saturating_sub(1);
    }

    /// Moves the cursor one char right, stopping at the end of the text.
    pub fn move_right(&mut self)
        requires
            old(self).cursor_view() < usize::MAX,
        ensures
            final(self).text_view() == old(self).text_view(),
            final(self).cursor_view() == clamp(
                old(self).cursor_view() + 1,
                old(self).text_view().len() as int,
            ),
    {
        let len = self.text.len();
        self.cursor = if self.cursor + 1 < len {
            self.cursor + 1
        } else {
            len
        };
    }

    /// Moves the cursor to the start.
    pub fn move_home(&mut self)
        ensures
            final(self).text_view() == old(self).text_view(),
            final(self).cursor_view() == 0,
    {
        self.cursor = 0;
    }

    /// Moves the cursor to the end.
    pub fn move_end(&mut self)
        ensures
            final(self).text_view() == old(self).text_view(),
            final(self).cursor_view() == old(self).text_view().len(),
    {
        self.cursor = self.text.len();
    }

    /// Line and column of the cursor in multi-line text.
    pub fn cursor_line_col(&self) -> (r: (usize, usize))
        ensures
            (r.0 as int, r.1 as int) == line_col(
                self.text_view().take(clamp(self.cursor_view(), self.text_view().len() as int)),
            ),
    {
        let end = if self.cursor < self.text.len() {
            self.cursor
        } else {
            self.text.len()
        };
        let mut line: usize = 0;
        let mut col: usize = 0;
        let mut i: usize = 0;
        while i < end
            invariant
                i <= end <= self.text.len(),
                (line as int, col as int) == line_col(self.text@.take(i as int)),
            decreases end - i,
        {
            proof {
                lemma_line_col_bounds(self.text@.take(i as int));
                assert(self.text@.take(i + 1).drop_last() =~= self.text@.take(i as int));
            }
            if self.text[i] == '\n' {
                line = line + 1;
                col = 0;
            } else {
                col = col + 1;
            }
            i = i + 1;
        }
        (line, col)
    }

    /// The text of the line that holds the cursor.
    pub fn active_line_text(&self) -> (s: String)
        ensures
            s@ == split_spec(self.text_view(), '\n')[line_col(
                self.text_view().take(clamp(self.cursor_view(), self.text_view().len() as int)),
            ).0],
    {
        let (line, _) = self.cursor_line_col();
        let pieces = split_chars(&self.text, '\n');
        let ghost k = clamp(self.cursor_view(), self.text_view().len() as int);
        proof {
            lemma_line_col_bounds(self.text@.take(k));
            lemma_line_col_bounds(self.text@);
            lemma_line_col_prefix(self.text@, k);
        }
        assert(views(pieces@)[line as int] == pieces@[line as int]@);
        string_from_chars(pieces[line].as_slice())
    }
}

/// A prefix has no more lines than the whole text.
pub proof fn lemma_line_col_prefix(s: Seq<char>, k: int)
    requires
        0 <= k <= s.len(),
    ensures
        line_col(s.take(k)).0 <= line_col(s).0,
    decreases s.len() - k,
{
    if k < s.len() {
        lemma_line_col_prefix(s, k + 1);
        assert(s.take(k + 1).drop_last() =~= s.take(k));
    } else {
        assert(s.take(k) =~= s);
    }
}

/// Typing a char and then pressing Backspace gives back the text, with the
/// cursor moved back onto it.
pub proof fn lemma_insert_then_backspace(text: Seq<char>, cursor: int, c: char)
    requires
        0 <= cursor,
        clamp(cursor, text.len() as int) < usize::MAX,
    ensures
        backspace_spec(insert_spec(text, cursor, c).0, insert_spec(text, cursor, c).1) == (
            text,
            clamp(cursor, text.len() as int),
        ),
{
    let k = clamp(cursor, text.len() as int);
    assert(text.insert(k, c).remove(k) =~= text);
}

/// Left then Delete removes the same char as Backspace, when the cursor is
/// inside the text and not at its start.
pub proof fn lemma_left_delete_is_backspace(text: Seq<char>, cursor: int)
    requires
        0 < cursor <= text.len(),
    ensures
        delete_spec(text, move_left_spec(cursor)) == backspace_spec(text, cursor),
{
}

/// Every edit leaves the cursor on the text.
pub proof fn lemma_edits_keep_cursor_on_text(text: Seq<char>, cursor: int, c: char)
    requires
        0 <= cursor,
        text.len() < usize::MAX,
    ensures
        0 <= insert_spec(text, cursor, c).1 <= insert_spec(text, cursor, c).0.len(),
        0 <= backspace_spec(text, cursor).1 <= backspace_spec(text, cursor).0.len(),
        0 <= delete_spec(text, cursor).1 <= delete_spec(text, cursor).0.len(),
{
}

} // verus!
