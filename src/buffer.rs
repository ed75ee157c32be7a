use vstd::prelude::*;

use crate::input::{CursorMove, Position};
use crate::text::{append_rows, lacks, rows_of_text, rows_view, split_rows, string_of, text_of};

verus! {

/// The contents of a buffer as a mathematical value: its rows, the cursor as
/// `(col, row)`, and the file it belongs to, if any.
pub struct BufferView {
    pub rows: Seq<Seq<char>>,
    pub col: int,
    pub row: int,
    pub path: Option<Seq<char>>,
}

/// `x` brought into `[0, hi]`.
pub open spec fn clamp(x: int, hi: int) -> int {
    if x < 0 {
        0
    } else if x > hi {
        hi
    } else {
        x
    }
}

impl BufferView {
    /// There is at least one row, the cursor stands on one of them, and its
    /// column is at most one past the row's last character.
    pub open spec fn valid(self) -> bool {
        &&& self.rows.len() >= 1
        &&& 0 <= self.row < self.rows.len()
        &&& 0 <= self.col <= self.rows[self.row].len()
    }

    /// The row under the cursor.
    pub open spec fn line(self) -> Seq<char> {
        self.rows[self.row]
    }

    /// `c` typed at the cursor: it goes in at the cursor's column, and the
    /// cursor moves one column right.
    pub open spec fn inserted(self, c: char) -> BufferView {
        BufferView {
            rows: self.rows.update(self.row, self.line().insert(self.col, c)),
            col: self.col + 1,
            ..self
        }
    }

    /// The row under the cursor split at the cursor's column: the left part
    /// stays, the right part becomes the next row, and the cursor goes to its
    /// start.
    pub open spec fn split(self) -> BufferView {
        let line = self.line();
        BufferView {
            rows: self.rows.update(self.row, line.subrange(0, self.col)).insert(
                self.row + 1,
                line.subrange(self.col, line.len() as int),
            ),
            col: 0,
            row: self.row + 1,
            ..self
        }
    }

    /// Backspace. Within a row it deletes the character left of the cursor.
    /// At the start of a row below the first, the cursor goes to the end of
    /// the row above, and the row it left is removed only if it is empty.
    /// At the start of the first row nothing changes.
    pub open spec fn removed(self) -> BufferView {
        if self.col > 0 {
            BufferView {
                rows: self.rows.update(self.row, self.line().remove(self.col - 1)),
                col: self.col - 1,
                ..self
            }
        } else if self.row > 0 {
            BufferView {
                rows: if self.line().len() == 0 {
                    self.rows.remove(self.row)
                } else {
                    self.rows
                },
                col: self.rows[self.row - 1].len() as int,
                row: self.row - 1,
                ..self
            }
        } else {
            self
        }
    }

    /// The row a move asks for, and the column it asks for before clamping.
    pub open spec fn target(self, m: CursorMove) -> (int, int) {
        match m {
            CursorMove::Absolute(x, y) => (x as int, y as int),
            CursorMove::Relative(dx, dy) => (self.col + dx, self.row + dy),
            CursorMove::EndOfRow(y) => (i64::MAX as int, y as int),
            CursorMove::CurrentRow(x) => (x as int, self.row),
        }
    }

    /// The cursor after a move: a move to a row that does not exist changes
    /// nothing; otherwise the cursor goes to that row, at the requested column
    /// brought into the row (at its end for `EndOfRow`).
    pub open spec fn moved(self, m: CursorMove) -> BufferView {
        let (x, y) = self.target(m);
        if 0 <= y < self.rows.len() {
            let len = self.rows[y].len() as int;
            BufferView {
                col: if m is EndOfRow {
                    len
                } else {
                    clamp(x, len)
                },
                row: y,
                ..self
            }
        } else {
            self
        }
    }
}

/// Writing a buffer and loading the text back gives the same rows, provided
/// no row holds a line feed.
pub proof fn law_write_then_load(b: BufferView)
    requires
        b.valid(),
        forall|i: int| 0 <= i < b.rows.len() ==> lacks(#[trigger] b.rows[i], '\n'),
    ensures
        rows_of_text(text_of(b.rows)) == b.rows,
{
    crate::text::lemma_rows_round_trip(b.rows);
}

/// Backspace at the start of a row below the first puts the cursor at the end
/// of the row above. A non-empty row is left where it is, and no text
/// changes; an empty row is removed, and the row above keeps its text.
pub proof fn law_backspace_at_row_start(b: BufferView)
    requires
        b.valid(),
        b.col == 0,
        b.row > 0,
    ensures
        b.removed().row == b.row - 1,
        b.removed().col == b.rows[b.row - 1].len(),
        b.removed().valid(),
        b.line().len() > 0 ==> b.removed().rows == b.rows,
        b.line().len() == 0 ==> b.removed().rows.len() == b.rows.len() - 1 && b.removed().rows[b.row
            - 1] == b.rows[b.row - 1] && b.removed().rows == b.rows.remove(b.row),
{
}

/// A text buffer: rows of characters, a cursor and an optional file location.
pub struct Buffer {
    content: Vec<Vec<char>>,
    cursor: (usize, usize),
    src_path: Option<String>,
}

/// The characters of an optional string.
pub open spec fn opt_view(s: Option<String>) -> Option<Seq<char>> {
    match s {
        Some(t) => Some(t@),
        None => None,
    }
}

impl View for Buffer {
    type V = BufferView;

    closed spec fn view(&self) -> BufferView {
        BufferView {
            rows: rows_view(self.content@),
            col: self.cursor.0 as int,
            row: self.cursor.1 as int,
            path: opt_view(self.src_path),
        }
    }
}

impl Buffer {
    #[verifier::type_invariant]
    spec fn inv(&self) -> bool {
        self@.valid()
    }

    /// Hands back what `self` held and leaves an empty buffer in its place.
    fn take(&mut self) -> (r: Buffer)
        ensures
            r@ == old(self)@,
            r@.valid(),
            r.content@.len() == r@.rows.len(),
    {
        let mut r = Buffer::new();
        std::mem::swap(self, &mut r);
        proof {
            use_type_invariant(&r);
        }
        r
    }

    /// A buffer of one empty row, with no file location.
    pub fn new() -> (r: Buffer)
        ensures
            r@.rows == seq![Seq::<char>::empty()],
            r@.col == 0,
            r@.row == 0,
            r@.path is None,
            r@.valid(),
    {
        let r = Buffer { content: vec![Vec::new()], cursor: (0, 0), src_path: None };
        assert(r@.rows =~= seq![Seq::<char>::empty()]);
        r
    }

    /// A buffer for a file that does not exist yet: one empty row, with the
    /// cursor at its start.
    pub fn create(path: &str) -> (r: Buffer)
        ensures
            r@.rows == seq![Seq::<char>::empty()],
            r@.col == 0,
            r@.row == 0,
            r@.path == Some(path@),
            r@.valid(),
    {
        let r = Buffer {
            content: vec![Vec::new()],
            cursor: (0, 0),
            src_path: Some(String::from_str(path)),
        };
        assert(r@.rows =~= seq![Seq::<char>::empty()]);
        r
    }

    /// A buffer holding the text read from the file at `path`, split into
    /// rows at its line feeds, with the cursor at the start.
    pub fn load(path: &str, text: &str) -> (r: Buffer)
        ensures
            r@.rows == rows_of_text(text@),
            r@.col == 0,
            r@.row == 0,
            r@.path == Some(path@),
            r@.valid(),
    {
        let content = split_rows(text);
        Buffer { content, cursor: (0, 0), src_path: Some(String::from_str(path)) }
    }

    /// Appends to `out` the text that persisting this buffer stores: each row
    /// followed by a line feed.
    pub fn write(&self, out: &mut String)
        ensures
            final(out)@ == old(out)@ + text_of(self@.rows),
    {
        append_rows(&self.content, out);
    }

    /// The file this buffer belongs to, if any.
    pub fn source_path(&self) -> (r: &Option<String>)
        ensures
            opt_view(*r) == self@.path,
    {
        &self.src_path
    }

    /// The number of rows.
    pub fn content_len(&self) -> (r: usize)
        ensures
            r == self@.rows.len(),
            r >= 1,
    {
        proof {
            use_type_invariant(self);
        }
        self.content.len()
    }

    /// The row at `index`, if there is one.
    pub fn get_row_at(&self, index: usize) -> (r: Option<String>)
        ensures
            opt_view(r) == (if index < self@.rows.len() {
                Some(self@.rows[index as int])
            } else {
                None
            }),
    {
        if index < self.content.len() {
            Some(string_of(&self.content[index]))
        } else {
            None
        }
    }

    /// The cursor as `(column, row)`.
    pub fn get_cursor(&self) -> (r: Position)
        ensures
            r == (self@.col as i64, self@.row as i64),
    {
        (self.cursor.0 as i64, self.cursor.1 as i64)
    }

    /// Inserts `c` at the cursor and moves the cursor one column right.
    pub fn insert(&mut self, c: char) -> (r: Result<(), &'static str>)
        ensures
            r is Ok,
            final(self)@ == old(self)@.inserted(c),
            final(self)@.valid(),
    {
        let Buffer { mut content, cursor: (col, row), src_path } = self.take();
        content[row].insert(col, c);
        assert(col < content[row as int].len());
        *self = Buffer { content, cursor: (col + 1, row), src_path };
        assert(self@.rows =~= old(self)@.inserted(c).rows);
        Ok(())
    }

    /// Splits the row under the cursor at the cursor; the right part becomes a
    /// new row below, and the cursor goes to its start.
    pub fn insert_newline(&mut self) -> (r: Result<(), &'static str>)
        ensures
            r is Ok,
            final(self)@ == old(self)@.split(),
            final(self)@.valid(),
    {
        let Buffer { mut content, cursor: (col, row), src_path } = self.take();
        let right = content[row].split_off(col);
        assert(row < content.len());
        content.insert(row + 1, right);
        *self = Buffer { content, cursor: (0, row + 1), src_path };
        assert(self@.rows =~= old(self)@.split().rows);
        Ok(())
    }

    /// Backspace: deletes the character left of the cursor, or at the start
    /// of a row moves to the end of the row above, removing the row it left
    /// when that row is empty.
    pub fn remove(&mut self) -> (r: Result<(), &'static str>)
        ensures
            r is Ok,
            final(self)@ == old(self)@.removed(),
            final(self)@.valid(),
    {
        let Buffer { mut content, cursor: (col, row), src_path } = self.take();
        if col > 0 {
            content[row].remove(col - 1);
            *self = Buffer { content, cursor: (col - 1, row), src_path };
            assert(self@.rows =~= old(self)@.removed().rows);
        } else if row > 0 {
            let above = content[row - 1].len();
            if content[row].len() == 0 {
                content.remove(row);
                assert(rows_view(content@) =~= old(self)@.rows.remove(row as int));
            }
            *self = Buffer { content, cursor: (above, row - 1), src_path };
        } else {
            *self = Buffer { content, cursor: (col, row), src_path };
        }
        Ok(())
    }

    /// Moves the cursor as `m` asks, within the rows that exist.
    pub fn move_cursor(&mut self, m: CursorMove)
        ensures
            final(self)@ == old(self)@.moved(m),
            final(self)@.valid(),
    {
        proof {
            use_type_invariant(&*self);
        }
        let col = self.cursor.0 as i128;
        let row = self.cursor.1 as i128;
        let (x, y): (i128, i128) = match m {
            CursorMove::Absolute(x, y) => (x as i128, y as i128),
            CursorMove::Relative(dx, dy) => (col + dx as i128, row + dy as i128),
            CursorMove::EndOfRow(y) => (i64::MAX as i128, y as i128),
            CursorMove::CurrentRow(x) => (x as i128, row),
        };
        if 0 <= y && y < self.content.len() as i128 {
            let r = y as usize;
            let len = self.content[r].len();
            let c = match m {
                CursorMove::EndOfRow(_) => len,
                _ => if x < 0 {
                    0
                } else if x > len as i128 {
                    len
                } else {
                    x as usize
                },
            };
            self.cursor = (c, r);
        }
    }
}

} // verus!
