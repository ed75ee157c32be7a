use vstd::prelude::*;

verus! {

/// A cursor position as `(column, row)`.
pub type Position = (i64, i64);

/// A request to move the cursor, resolved by the buffer against its rows.
#[derive(Clone, Copy, Debug, PartialEq, Eq, Structural)]
pub enum CursorMove {
    /// Go to column `x` of row `y`.
    Absolute(i64, i64),
    /// Move by `dx` columns and `dy` rows.
    Relative(i64, i64),
    /// Go to the end of row `y`.
    EndOfRow(i64),
    /// Stay on the current row and go to column `x`; `i64::MAX` means the last column.
    CurrentRow(i64),
}

/// A key as the terminal reports it.
#[derive(Clone, Copy, Debug, PartialEq, Eq, Hash, Structural)]
pub enum Key {
    Backspace,
    Left,
    Right,
    Up,
    Down,
    Home,
    End,
    PageUp,
    PageDown,
    Delete,
    Insert,
    Esc,
    Tab,
    Enter,
    AnyChar,
    Char(char),
    Ctrl(char),
}

/// An input event.
#[derive(Clone, Copy, Debug, PartialEq, Eq, Structural)]
pub enum Event {
    Key(Key),
    Resize,
}

} // verus!
