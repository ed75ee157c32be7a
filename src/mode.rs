use vstd::prelude::*;

verus! {

/// How key events are read.
#[derive(Clone, Copy, Debug, PartialEq, Eq, Structural)]
pub enum Mode {
    /// Navigation; printable keys build up a command.
    View,
    /// Printable keys go into the buffer.
    Insert,
    /// A command line is being typed.
    Command,
    /// The editor has stopped.
    Exit,
}

impl Mode {
    /// The name shown for the mode in the status line.
    pub open spec fn spec_label(self) -> Seq<char> {
        match self {
            Mode::Command => "CMD"@,
            Mode::Insert => "INSERT"@,
            Mode::View => "VIEW"@,
            Mode::Exit => ""@,
        }
    }

    /// The name shown for the mode in the status line; empty once the editor
    /// has stopped.
    pub fn label(&self) -> (r: &'static str)
        ensures
            r@ == self.spec_label(),
    {
        match self {
            Mode::Command => "CMD",
            Mode::Insert => "INSERT",
            Mode::View => "VIEW",
            Mode::Exit => "",
        }
    }
}

} // verus!
