use vstd::prelude::*;

use crate::buffer::{Buffer, BufferView};
use crate::input::CursorMove;
use crate::plugin::Plugin;
use crate::text::{same_text, strings_view};

verus! {

/// The command strings of the built-in motions, in order: left, right, down,
/// up, start of row, end of row, first row, last row.
pub open spec fn standard_commands() -> Seq<Seq<char>> {
    seq!["h"@, "l"@, "j"@, "k"@, "0"@, "$"@, "gg"@, "G"@]
}

/// The move that a built-in command makes in a buffer of `rows` rows, or
/// `None` where the command is not one of them.
pub open spec fn standard_motion(cmd: Seq<char>, rows: int) -> Option<CursorMove> {
    if cmd == "h"@ {
        Some(CursorMove::Relative(-1i64, 0i64))
    } else if cmd == "l"@ {
        Some(CursorMove::Relative(1i64, 0i64))
    } else if cmd == "j"@ {
        Some(CursorMove::Relative(0i64, 1i64))
    } else if cmd == "k"@ {
        Some(CursorMove::Relative(0i64, -1i64))
    } else if cmd == "0"@ {
        Some(CursorMove::CurrentRow(0i64))
    } else if cmd == "$"@ {
        Some(CursorMove::CurrentRow(i64::MAX))
    } else if cmd == "gg"@ {
        Some(CursorMove::Absolute(0i64, 0i64))
    } else if cmd == "G"@ {
        Some(CursorMove::Absolute(0i64, (rows - 1) as i64))
    } else {
        None
    }
}

/// The built-in plugin: cursor motions in the manner of modal editors. It
/// moves the cursor and never changes the text.
pub struct StandardPlugin {}

impl StandardPlugin {
    /// The built-in plugin, ready to be registered.
    pub fn load() -> StandardPlugin {
        StandardPlugin {  }
    }

    /// The move that `cmd` makes in a buffer of `rows` rows, if it is one of
    /// the built-in commands.
    pub fn motion(cmd: &str, rows: usize) -> (r: Option<CursorMove>)
        ensures
            r == standard_motion(cmd@, rows as int),
    {
        proof {
            reveal_strlit("h");
            reveal_strlit("l");
            reveal_strlit("j");
            reveal_strlit("k");
            reveal_strlit("0");
            reveal_strlit("$");
            reveal_strlit("gg");
            reveal_strlit("G");
        }
        if same_text(cmd, "h") {
            Some(CursorMove::Relative(-1, 0))
        } else if same_text(cmd, "l") {
            Some(CursorMove::Relative(1, 0))
        } else if same_text(cmd, "j") {
            Some(CursorMove::Relative(0, 1))
        } else if same_text(cmd, "k") {
            Some(CursorMove::Relative(0, -1))
        } else if same_text(cmd, "0") {
            Some(CursorMove::CurrentRow(0))
        } else if same_text(cmd, "$") {
            Some(CursorMove::CurrentRow(i64::MAX))
        } else if same_text(cmd, "gg") {
            Some(CursorMove::Absolute(0, 0))
        } else if same_text(cmd, "G") {
            Some(CursorMove::Absolute(0, (rows as i128 - 1) as i64))
        } else {
            None
        }
    }
}

impl Plugin for StandardPlugin {
    open spec fn spec_commands(&self) -> Option<Seq<Seq<char>>> {
        Some(standard_commands())
    }

    /// A built-in command moves the cursor and succeeds; any other command
    /// fails and leaves the buffer as it was.
    open spec fn handles(
        &self,
        next: Self,
        before: BufferView,
        after: BufferView,
        cmd: Seq<char>,
        r: Result<(), String>,
    ) -> bool {
        match standard_motion(cmd, before.rows.len() as int) {
            Some(m) => r is Ok && after == before.moved(m),
            None => r is Err && after == before,
        }
    }

    fn name(&self) -> (r: &'static str)
        ensures
            r@ == "StandardPlugin"@,
    {
        "StandardPlugin"
    }

    fn commands(&self) -> (r: Vec<String>) {
        let r = vec![
            String::from_str("h"),
            String::from_str("l"),
            String::from_str("j"),
            String::from_str("k"),
            String::from_str("0"),
            String::from_str("$"),
            String::from_str("gg"),
            String::from_str("G"),
        ];
        assert(strings_view(r@) =~= standard_commands());
        r
    }

    fn dispatch(&mut self, buffer: &mut Buffer, cmd: &str) -> (r: Result<(), String>) {
        match StandardPlugin::motion(cmd, buffer.content_len()) {
            Some(m) => {
                buffer.move_cursor(m);
                Ok(())
            },
            None => Err(String::from_str("not a built-in motion")),
        }
    }

    fn unload(self) {
    }
}

} // verus!
