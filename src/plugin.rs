//! Command providers and the registry that routes command strings to them.

pub mod manager;
pub mod standard;

use vstd::prelude::*;

use crate::buffer::{Buffer, BufferView};
use crate::text::strings_view;

verus! {

/// A command provider: it claims command strings and carries them out on a
/// buffer. Built-in plugins implement it here; plugins loaded from shared
/// libraries implement it where they are loaded.
pub trait Plugin: Sized {
    /// The command strings this plugin claims, where it states them; a
    /// plugin that states nothing claims whatever `commands` returns.
    open spec fn spec_commands(&self) -> Option<Seq<Seq<char>>> {
        None
    }

    /// Carrying out `cmd` may take this plugin to `next` and the buffer from
    /// `before` to `after`, with result `r`. A plugin that states nothing
    /// may do anything.
    open spec fn handles(
        &self,
        next: Self,
        before: BufferView,
        after: BufferView,
        cmd: Seq<char>,
        r: Result<(), String>,
    ) -> bool {
        true
    }

    /// A name for diagnostics.
    fn name(&self) -> &'static str;

    /// The exact command strings this plugin wants to own.
    fn commands(&self) -> (r: Vec<String>)
        ensures
            self.spec_commands() matches Some(c) ==> strings_view(r@) == c,
    ;

    /// Carries out `cmd` on `buffer`; an error means the plugin did not
    /// handle it.
    fn dispatch(&mut self, buffer: &mut Buffer, cmd: &str) -> (r: Result<(), String>)
        ensures
            old(self).handles(*final(self), old(buffer)@, final(buffer)@, cmd@, r),
    ;

    /// Releases the plugin.
    fn unload(self);
}

} // verus!
