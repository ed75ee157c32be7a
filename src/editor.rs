use vstd::prelude::*;

use crate::buffer::Buffer;
use crate::input::{CursorMove, Event, Key};
use crate::mode::Mode;
use crate::plugin::manager::CommandManager;
use crate::plugin::Plugin;
use crate::text::{decimal, pop_char, push_char, push_decimal};

verus! {

/// What the editor asks of its host once it has taken an event in.
pub enum Effect {
    /// Nothing beyond drawing the screen again.
    Nothing,
    /// Store the buffer in the file at this path.
    Write(String),
    /// Storing was asked for, but the buffer belongs to no file.
    NoFileName,
}

/// What a command that no plugin handled does when it is committed: `q`
/// stops the editor, `w` asks for the buffer to be stored at `path`, and any
/// other command only returns to `View`.
pub open spec fn fallback(cmd: Seq<char>, path: Option<Seq<char>>, mode: Mode, r: Effect) -> bool {
    if cmd == "q"@ {
        mode == Mode::Exit && r is Nothing
    } else if cmd == "w"@ {
        mode == Mode::View && match path {
            Some(p) => r matches Effect::Write(q) && q@ == p,
            None => r is NoFileName,
        }
    } else {
        mode == Mode::View && r is Nothing
    }
}

/// The status line: the command being typed (after a `:`) in `Command`, the
/// mode's name otherwise, then the cursor's column and row.
pub open spec fn status(mode: Mode, cmd: Seq<char>, col: i64, row: i64) -> Seq<char> {
    let head = if mode == Mode::Command {
        seq![':'] + cmd
    } else {
        mode.spec_label()
    };
    head + " >> "@ + decimal(col as int) + "c "@ + decimal(row as int) + "r"@
}

/// The editor: the buffer being edited, the mode, the command typed so far,
/// and the plugins that carry commands out.
pub struct App<P> {
    pub mode: Mode,
    pub command_buffer: String,
    pub buffer: Buffer,
    pub command_manager: CommandManager<P>,
}

impl<P: Plugin> App<P> {
    /// `next` differs from `self` only in its mode, `m`, and an empty command.
    pub open spec fn switched(self, next: Self, m: Mode) -> bool {
        &&& next.mode == m
        &&& next.command_buffer@.len() == 0
        &&& next.buffer == self.buffer
        &&& next.command_manager == self.command_manager
    }

    /// `next` differs from `self` only in its buffer, which is `b`.
    pub open spec fn edited(self, next: Self, b: crate::buffer::BufferView) -> bool {
        &&& next.mode == self.mode
        &&& next.command_buffer == self.command_buffer
        &&& next.buffer@ == b
        &&& next.command_manager == self.command_manager
    }

    /// The effect of typing `c` outside `Insert`: `:` starts a command line,
    /// `i` enters `Insert`, and any other character is added to the command,
    /// which is then offered to the plugins. A command that nobody owns keeps
    /// building up and changes nothing else; one that a plugin owns goes to
    /// that plugin with the buffer, and is cleared if the plugin handles it.
    pub open spec fn pushed(self, next: Self, c: char) -> bool {
        if c == ':' {
            self.switched(next, Mode::Command)
        } else if c == 'i' {
            self.switched(next, Mode::Insert)
        } else {
            let s = self.command_buffer@.push(c);
            &&& next.mode == self.mode
            &&& if self.command_manager.table().contains_key(s) {
                exists|r: Result<(), String>|
                    {
                        &&& #[trigger] self.command_manager.ran_owner(
                            next.command_manager,
                            self.buffer@,
                            next.buffer@,
                            s,
                            r,
                        )
                        &&& r is Ok ==> next.command_buffer@.len() == 0
                        &&& r is Err ==> next.command_buffer@ == s
                    }
            } else {
                &&& next.command_buffer@ == s
                &&& next.buffer == self.buffer
                &&& next.command_manager == self.command_manager
            }
        }
    }

    /// The effect of committing the command typed so far: it goes to the
    /// plugin that owns it, if any; if that plugin handles it the editor
    /// returns to `View`, and otherwise `fallback` decides. Either way the
    /// command is cleared.
    pub open spec fn committed(self, next: Self, r: Effect) -> bool {
        let s = self.command_buffer@;
        &&& next.command_buffer@.len() == 0
        &&& if self.command_manager.table().contains_key(s) {
            exists|res: Result<(), String>|
                {
                    &&& #[trigger] self.command_manager.ran_owner(
                        next.command_manager,
                        self.buffer@,
                        next.buffer@,
                        s,
                        res,
                    )
                    &&& res is Ok ==> next.mode == Mode::View && r is Nothing
                    &&& res is Err ==> fallback(s, next.buffer@.path, next.mode, r)
                }
        } else {
            &&& next.buffer == self.buffer
            &&& next.command_manager == self.command_manager
            &&& fallback(s, self.buffer@.path, next.mode, r)
        }
    }

    /// The effect of key `k` in `Insert`: characters, line breaks and
    /// backspaces edit the buffer, and `Esc` returns to `View`.
    pub open spec fn typed(self, next: Self, k: Key) -> bool {
        match k {
            Key::Char(c) => self.edited(next, self.buffer@.inserted(c)),
            Key::Enter => self.edited(next, self.buffer@.split()),
            Key::Backspace | Key::Delete => self.edited(next, self.buffer@.removed()),
            Key::Esc => self.switched(next, Mode::View),
            _ => next == self,
        }
    }

    /// The effect of key `k` in `View` or `Command`: characters build up a
    /// command, `Enter` commits it, `Esc` returns to `View`, and backspace
    /// takes back the last character of the command.
    pub open spec fn commanded(self, next: Self, k: Key, r: Effect) -> bool {
        match k {
            Key::Char(c) => self.pushed(next, c) && r is Nothing,
            Key::Enter => self.committed(next, r),
            Key::Esc => self.switched(next, Mode::View) && r is Nothing,
            Key::Backspace | Key::Delete => {
                &&& next.mode == self.mode
                &&& next.command_buffer@ == (if self.command_buffer@.len() > 0 {
                    self.command_buffer@.drop_last()
                } else {
                    self.command_buffer@
                })
                &&& next.buffer == self.buffer
                &&& next.command_manager == self.command_manager
                &&& r is Nothing
            },
            _ => next == self && r is Nothing,
        }
    }

    /// The effect of event `e`. Once stopped the editor ignores everything;
    /// arrow keys move the cursor in every other mode; the rest depends on the
    /// mode.
    pub open spec fn handled(self, next: Self, e: Event, r: Effect) -> bool {
        if self.mode == Mode::Exit {
            next == self && r is Nothing
        } else {
            match e {
                Event::Resize => next == self && r is Nothing,
                Event::Key(k) => match k {
                    Key::Up => self.edited(next, self.buffer@.moved(CursorMove::Relative(0i64, -1i64)))
                        && r is Nothing,
                    Key::Down => self.edited(next, self.buffer@.moved(CursorMove::Relative(0i64, 1i64)))
                        && r is Nothing,
                    Key::Left => self.edited(next, self.buffer@.moved(CursorMove::Relative(-1i64, 0i64)))
                        && r is Nothing,
                    Key::Right => self.edited(next, self.buffer@.moved(CursorMove::Relative(1i64, 0i64)))
                        && r is Nothing,
                    _ => if self.mode == Mode::Insert {
                        self.typed(next, k) && r is Nothing
                    } else {
                        self.commanded(next, k, r)
                    },
                },
            }
        }
    }

    /// An editor in `View` on `buffer`, with no command typed.
    pub fn new(buffer: Buffer, command_manager: CommandManager<P>) -> (r: App<P>)
        ensures
            r.mode == Mode::View,
            r.command_buffer@.len() == 0,
            r.buffer == buffer,
            r.command_manager == command_manager,
    {
        App { mode: Mode::View, command_buffer: String::new(), buffer, command_manager }
    }

    /// Whether the editor goes on taking events.
    pub fn running(&self) -> (r: bool)
        ensures
            r == (self.mode != Mode::Exit),
    {
        !matches!(self.mode, Mode::Exit)
    }

    /// The text of the status line.
    pub fn status_text(&self) -> (r: String)
        ensures
            r@ == status(
                self.mode,
                self.command_buffer@,
                self.buffer@.col as i64,
                self.buffer@.row as i64,
            ),
    {
        let (col, row) = self.buffer.get_cursor();
        let mut r = String::new();
        match self.mode {
            Mode::Command => {
                push_char(&mut r, ':');
                r.append(self.command_buffer.as_str());
            },
            _ => r.append(self.mode.label()),
        }
        r.append(" >> ");
        push_decimal(&mut r, col);
        r.append("c ");
        push_decimal(&mut r, row);
        r.append("r");
        proof {
            reveal_strlit(" >> ");
            reveal_strlit("c ");
            reveal_strlit("r");
        }
        assert(r@ =~= status(self.mode, self.command_buffer@, col, row));
        r
    }

    fn set_mode(&mut self, mode: Mode)
        ensures
            old(self).switched(*final(self), mode),
    {
        self.mode = mode;
        self.command_buffer = String::new();
    }

    /// Takes in character `c` typed outside `Insert`.
    pub fn command_push_char(&mut self, c: char)
        ensures
            old(self).pushed(*final(self), c),
    {
        match c {
            ':' => self.set_mode(Mode::Command),
            'i' => self.set_mode(Mode::Insert),
            _ => {
                push_char(&mut self.command_buffer, c);
                let r = self.command_manager.dispatch(&mut self.buffer, self.command_buffer.as_str());
                if r.is_ok() {
                    self.command_buffer = String::new();
                }
                proof {
                    let s = old(self).command_buffer@.push(c);
                    if old(self).command_manager.table().contains_key(s) {
                        assert(old(self).command_manager.ran_owner(
                            self.command_manager,
                            old(self).buffer@,
                            self.buffer@,
                            s,
                            r,
                        ));
                    }
                }
            },
        }
    }

    /// Commits the command typed so far.
    pub fn command_commit(&mut self) -> (r: Effect)
        ensures
            old(self).committed(*final(self), r),
    {
        proof {
            reveal_strlit("q");
            reveal_strlit("w");
        }
        let res = self.command_manager.dispatch(&mut self.buffer, self.command_buffer.as_str());
        proof {
            if old(self).command_manager.table().contains_key(old(self).command_buffer@) {
                assert(old(self).command_manager.ran_owner(
                    self.command_manager,
                    old(self).buffer@,
                    self.buffer@,
                    old(self).command_buffer@,
                    res,
                ));
            }
        }
        let mut effect = Effect::Nothing;
        if res.is_err() {
            let cmd = self.command_buffer.as_str();
            if crate::text::same_text(cmd, "q") {
                self.set_mode(Mode::Exit);
                return Effect::Nothing;
            } else if crate::text::same_text(cmd, "w") {
                effect = match self.buffer.source_path() {
                    Some(p) => Effect::Write(p.clone()),
                    None => Effect::NoFileName,
                };
            }
        }
        self.set_mode(Mode::View);
        effect
    }

    /// Takes in event `e` and says what is left for the host to do.
    pub fn handle_event(&mut self, e: Event) -> (r: Effect)
        ensures
            old(self).handled(*final(self), e, r),
    {
        if matches!(self.mode, Mode::Exit) {
            return Effect::Nothing;
        }
        match e {
            Event::Resize => Effect::Nothing,
            Event::Key(Key::Up) => {
                self.buffer.move_cursor(CursorMove::Relative(0, -1));
                Effect::Nothing
            },
            Event::Key(Key::Down) => {
                self.buffer.move_cursor(CursorMove::Relative(0, 1));
                Effect::Nothing
            },
            Event::Key(Key::Left) => {
                self.buffer.move_cursor(CursorMove::Relative(-1, 0));
                Effect::Nothing
            },
            Event::Key(Key::Right) => {
                self.buffer.move_cursor(CursorMove::Relative(1, 0));
                Effect::Nothing
            },
            Event::Key(k) => {
                if matches!(self.mode, Mode::Insert) {
                    match k {
                        Key::Char(c) => {
                            let _ = self.buffer.insert(c);
                        },
                        Key::Enter => {
                            let _ = self.buffer.insert_newline();
                        },
                        Key::Backspace | Key::Delete => {
                            let _ = self.buffer.remove();
                        },
                        Key::Esc => self.set_mode(Mode::View),
                        _ => {},
                    }
                    Effect::Nothing
                } else {
                    match k {
                        Key::Char(c) => {
                            self.command_push_char(c);
                            Effect::Nothing
                        },
                        Key::Enter => self.command_commit(),
                        Key::Esc => {
                            self.set_mode(Mode::View);
                            Effect::Nothing
                        },
                        Key::Backspace | Key::Delete => {
                            let _ = pop_char(&mut self.command_buffer);
                            Effect::Nothing
                        },
                        _ => Effect::Nothing,
                    }
                }
            },
        }
    }
}

} // verus!
