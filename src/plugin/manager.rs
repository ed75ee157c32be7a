use vstd::prelude::*;

use crate::buffer::{Buffer, BufferView};
use crate::plugin::Plugin;
use crate::text::{same_text, strings_view};

verus! {

/// The command table that a list of entries describes: each command string
/// to the index of the plugin that owns it.
pub open spec fn table_of(entries: Seq<(String, usize)>) -> Map<Seq<char>, int>
    decreases entries.len(),
{
    if entries.len() == 0 {
        Map::empty()
    } else {
        table_of(entries.drop_last()).insert(entries.last().0@, entries.last().1 as int)
    }
}

/// No command string occurs twice among the entries.
pub open spec fn distinct_keys(entries: Seq<(String, usize)>) -> bool {
    forall|i: int, j: int| 0 <= i < j < entries.len() ==> entries[i].0@ != entries[j].0@
}

/// The commands in `cmds`, each owned by plugin `n`.
pub open spec fn claimed(cmds: Seq<Seq<char>>, n: int) -> Map<Seq<char>, int> {
    Map::new(|k: Seq<char>| cmds.contains(k), |k: Seq<char>| n)
}

/// Command `j` of `cmds` cannot be registered beside `table`: the table holds
/// it already, or it occurs earlier in `cmds`.
pub open spec fn collides(table: Map<Seq<char>, int>, cmds: Seq<Seq<char>>, j: int) -> bool {
    table.contains_key(cmds[j]) || cmds.subrange(0, j).contains(cmds[j])
}

/// All of `cmds` can be registered beside `table`.
pub open spec fn fits(table: Map<Seq<char>, int>, cmds: Seq<Seq<char>>) -> bool {
    forall|j: int| 0 <= j < cmds.len() ==> !#[trigger] collides(table, cmds, j)
}

/// Command `j` is the first of `cmds` that collides.
pub open spec fn first_collision(table: Map<Seq<char>, int>, cmds: Seq<Seq<char>>, j: int) -> bool {
    &&& 0 <= j < cmds.len()
    &&& collides(table, cmds, j)
    &&& forall|i: int| 0 <= i < j ==> !#[trigger] collides(table, cmds, i)
}

/// Once a plugin owns a command, a later plugin that claims the same command
/// cannot be registered: its registration fails as a whole.
pub proof fn law_second_claim_refused(
    table: Map<Seq<char>, int>,
    first: Seq<Seq<char>>,
    n: int,
    second: Seq<Seq<char>>,
    cmd: Seq<char>,
)
    requires
        first.contains(cmd),
        second.contains(cmd),
    ensures
        !fits(table.union_prefer_right(claimed(first, n)), second),
{
    let j = choose|j: int| 0 <= j < second.len() && second[j] == cmd;
    assert(collides(table.union_prefer_right(claimed(first, n)), second, j));
}

proof fn lemma_table_of_entry(entries: Seq<(String, usize)>, i: int)
    requires
        distinct_keys(entries),
        0 <= i < entries.len(),
    ensures
        table_of(entries).contains_key(entries[i].0@),
        table_of(entries)[entries[i].0@] == entries[i].1 as int,
    decreases entries.len(),
{
    if i < entries.len() - 1 {
        let init = entries.drop_last();
        assert(init[i] == entries[i]);
        lemma_table_of_entry(init, i);
        assert(entries.last() == entries[entries.len() - 1]);
    }
}

proof fn lemma_table_of_key(entries: Seq<(String, usize)>, k: Seq<char>)
    requires
        table_of(entries).contains_key(k),
    ensures
        exists|i: int| 0 <= i < entries.len() && #[trigger] entries[i].0@ == k,
    decreases entries.len(),
{
    let init = entries.drop_last();
    if entries.last().0@ == k {
        assert(entries[entries.len() - 1].0@ == k);
    } else {
        lemma_table_of_key(init, k);
        let i = choose|i: int| 0 <= i < init.len() && #[trigger] init[i].0@ == k;
        assert(entries[i].0@ == k);
    }
}

proof fn lemma_table_of_owner(entries: Seq<(String, usize)>, k: Seq<char>, n: int)
    requires
        forall|i: int| 0 <= i < entries.len() ==> (#[trigger] entries[i]).1 < n,
        table_of(entries).contains_key(k),
    ensures
        0 <= table_of(entries)[k] < n,
    decreases entries.len(),
{
    let init = entries.drop_last();
    assert(entries.last() == entries[entries.len() - 1]);
    if entries.last().0@ != k {
        assert forall|i: int| 0 <= i < init.len() implies (#[trigger] init[i]).1 < n by {
            assert(init[i] == entries[i]);
        }
        lemma_table_of_owner(init, k, n);
    }
}

/// The registry: the plugins, and which of them owns each command string.
pub struct CommandManager<P> {
    plugins: Vec<P>,
    commands: Vec<(String, usize)>,
}

impl<P> CommandManager<P> {
    #[verifier::type_invariant]
    spec fn inv(&self) -> bool {
        &&& distinct_keys(self.commands@)
        &&& forall|i: int|
            0 <= i < self.commands@.len() ==> (#[trigger] self.commands@[i]).1 < self.plugins@.len()
    }

    /// Each registered command string, to the index of the plugin that owns it.
    pub closed spec fn table(&self) -> Map<Seq<char>, int> {
        table_of(self.commands@)
    }

    /// The registered plugins, in the order they were added.
    pub closed spec fn plugins(&self) -> Seq<P> {
        self.plugins@
    }

    /// Every command is owned by a plugin that is there.
    pub open spec fn owners_exist(&self) -> bool {
        forall|k: Seq<char>|
            #[trigger] self.table().contains_key(k) ==> 0 <= self.table()[k] < self.plugins().len()
    }

    proof fn lemma_owners_exist(&self)
        requires
            self.inv(),
        ensures
            self.owners_exist(),
    {
        assert forall|k: Seq<char>| #[trigger] self.table().contains_key(k) implies 0 <= self.table()[k]
            < self.plugins().len() by {
            lemma_table_of_owner(self.commands@, k, self.plugins@.len() as int);
            lemma_table_of_key(self.commands@, k);
        }
    }

    /// A registry with no plugins and no commands.
    pub fn new() -> (r: CommandManager<P>)
        ensures
            r.table() == Map::<Seq<char>, int>::empty(),
            r.plugins() == Seq::<P>::empty(),
    {
        let r = CommandManager { plugins: Vec::new(), commands: Vec::new() };
        assert(r.plugins@ =~= Seq::<P>::empty());
        r
    }

    /// Hands back what `self` held and leaves an empty registry in its place.
    fn take(&mut self) -> (r: CommandManager<P>)
        ensures
            r == *old(self),
            r.inv(),
    {
        let mut r = CommandManager::new();
        std::mem::swap(self, &mut r);
        proof {
            use_type_invariant(&r);
        }
        r
    }

    /// Where the entry for `cmd` stands, if there is one.
    fn find(&self, cmd: &str) -> (r: Option<usize>)
        ensures
            match r {
                Some(i) => i < self.commands@.len() && self.commands@[i as int].0@ == cmd@
                    && self.table().contains_key(cmd@) && self.table()[cmd@] == self.commands@[i as int].1,
                None => !self.table().contains_key(cmd@),
            },
    {
        proof {
            use_type_invariant(self);
        }
        let mut i: usize = 0;
        while i < self.commands.len()
            invariant
                i <= self.commands@.len(),
                distinct_keys(self.commands@),
                forall|j: int| 0 <= j < i ==> (#[trigger] self.commands@[j]).0@ != cmd@,
            decreases self.commands@.len() - i,
        {
            if same_text(self.commands[i].0.as_str(), cmd) {
                proof {
                    lemma_table_of_entry(self.commands@, i as int);
                }
                return Some(i);
            }
            i += 1;
        }
        proof {
            if self.table().contains_key(cmd@) {
                lemma_table_of_key(self.commands@, cmd@);
            }
        }
        None
    }

    /// The plugin that owns `cmd`, if any.
    pub fn owner(&self, cmd: &str) -> (r: Option<usize>)
        ensures
            match r {
                Some(i) => self.table().contains_key(cmd@) && self.table()[cmd@] == i,
                None => !self.table().contains_key(cmd@),
            },
    {
        match self.find(cmd) {
            Some(i) => Some(self.commands[i].1),
            None => None,
        }
    }

    /// The number of registered plugins.
    pub fn plugin_count(&self) -> (r: usize)
        ensures
            r == self.plugins().len(),
    {
        self.plugins.len()
    }

    /// Makes plugin `plugin` the owner of `cmd`; fails if `cmd` has an owner
    /// already.
    pub fn register_command(&mut self, cmd: String, plugin: usize) -> (r: Result<(), String>)
        requires
            plugin < old(self).plugins().len(),
        ensures
            old(self).table().contains_key(cmd@) ==> (r matches Err(e) && e@
                == "command already exists"@) && *final(self) == *old(self),
            !old(self).table().contains_key(cmd@) ==> r is Ok && final(self).table() == old(
                self,
            ).table().insert(cmd@, plugin as int) && final(self).plugins() == old(self).plugins(),
            final(self).owners_exist(),
    {
        if self.find(cmd.as_str()).is_some() {
            proof {
                use_type_invariant(&*self);
                self.lemma_owners_exist();
            }
            return Err(String::from_str("command already exists"));
        }
        let CommandManager { plugins, mut commands } = self.take();
        let ghost before = commands@;
        commands.push((cmd, plugin));
        proof {
            assert(commands@.drop_last() =~= before);
            assert forall|i: int| 0 <= i < before.len() implies before[i].0@ != cmd@ by {
                lemma_table_of_entry(before, i);
            }
            assert(distinct_keys(commands@)) by {
                assert forall|i: int, j: int| 0 <= i < j < commands@.len() implies commands@[i].0@
                    != commands@[j].0@ by {
                    if j < before.len() {
                        assert(commands@[i] == before[i] && commands@[j] == before[j]);
                    } else {
                        assert(commands@[i] == before[i]);
                    }
                }
            }
        }
        *self = CommandManager { plugins, commands };
        proof {
            self.lemma_owners_exist();
        }
        Ok(())
    }
}

impl<P: Plugin> CommandManager<P> {
    /// `next` is this registry after the owner of `cmd` carried it out,
    /// taking the buffer from `before` to `after` with result `r`: the table
    /// and the other plugins stay as they were, and the owner did what its
    /// `handles` allows.
    pub open spec fn ran_owner(
        self,
        next: Self,
        before: BufferView,
        after: BufferView,
        cmd: Seq<char>,
        r: Result<(), String>,
    ) -> bool {
        let o = self.table()[cmd];
        &&& next.table() == self.table()
        &&& next.plugins().len() == self.plugins().len()
        &&& forall|i: int|
            0 <= i < self.plugins().len() && i != o ==> #[trigger] next.plugins()[i]
                == self.plugins()[i]
        &&& self.plugins()[o].handles(next.plugins()[o], before, after, cmd, r)
    }

    /// Whether `cmds[j]` occurs among `cmds[0..j]`.
    fn claimed_earlier(cmds: &Vec<String>, j: usize) -> (r: bool)
        requires
            j < cmds@.len(),
        ensures
            r == strings_view(cmds@).subrange(0, j as int).contains(strings_view(cmds@)[j as int]),
    {
        let ghost cv = strings_view(cmds@);
        let mut i: usize = 0;
        while i < j
            invariant
                j < cmds@.len(),
                cv == strings_view(cmds@),
                i <= j,
                forall|l: int| 0 <= l < i ==> cv[l] != cv[j as int],
            decreases j - i,
        {
            if cmds[i] == cmds[j] {
                assert(cv.subrange(0, j as int)[i as int] == cv[j as int]);
                return true;
            }
            i += 1;
        }
        proof {
            if cv.subrange(0, j as int).contains(cv[j as int]) {
                let l = choose|l: int| 0 <= l < j && cv.subrange(0, j as int)[l] == cv[j as int];
                assert(cv[l] == cv[j as int]);
            }
        }
        false
    }

    /// Adds `plugin` as the owner of every command in `cmds`, all or nothing:
    /// if one of them is registered already, or occurs twice in `cmds`,
    /// nothing is registered, the plugin is unloaded, and the error names the
    /// first such command.
    pub fn register_plugin(&mut self, plugin: P, cmds: Vec<String>) -> (r: Result<(), String>)
        ensures
            fits(old(self).table(), strings_view(cmds@)) ==> r is Ok && final(self).plugins()
                == old(self).plugins().push(plugin) && final(self).table() == old(
                self,
            ).table().union_prefer_right(
                claimed(strings_view(cmds@), old(self).plugins().len() as int),
            ),
            !fits(old(self).table(), strings_view(cmds@)) ==> (r matches Err(e) && exists|j: int|
                first_collision(old(self).table(), strings_view(cmds@), j) && e@
                    == "command already exists: "@ + strings_view(cmds@)[j]) && *final(self)
                == *old(self),
            final(self).owners_exist(),
    {
        let ghost cv = strings_view(cmds@);
        let ghost table = self.table();
        let mut j: usize = 0;
        while j < cmds.len()
            invariant
                j <= cmds@.len(),
                cv == strings_view(cmds@),
                table == self.table(),
                forall|i: int| 0 <= i < j ==> !#[trigger] collides(table, cv, i),
            decreases cmds@.len() - j,
        {
            if self.find(cmds[j].as_str()).is_some() || Self::claimed_earlier(&cmds, j) {
                plugin.unload();
                let mut e = String::from_str("command already exists: ");
                e.append(cmds[j].as_str());
                proof {
                    use_type_invariant(&*self);
                    self.lemma_owners_exist();
                    assert(first_collision(table, cv, j as int));
                }
                return Err(e);
            }
            j += 1;
        }
        let n = self.plugins.len();
        let CommandManager { mut plugins, commands } = self.take();
        plugins.push(plugin);
        *self = CommandManager { plugins, commands };
        let ghost pushed = self.plugins();
        let mut j: usize = 0;
        while j < cmds.len()
            invariant
                j <= cmds@.len(),
                cv == strings_view(cmds@),
                n < self.plugins().len(),
                self.plugins() == pushed,
                fits(table, cv),
                self.table() == table.union_prefer_right(claimed(cv.subrange(0, j as int), n as int)),
            decreases cmds@.len() - j,
        {
            proof {
                assert(!collides(table, cv, j as int));
                if claimed(cv.subrange(0, j as int), n as int).contains_key(cv[j as int]) {
                    assert(cv.subrange(0, j as int).contains(cv[j as int]));
                }
            }
            let res = self.register_command(cmds[j].clone(), n);
            proof {
                let s0 = cv.subrange(0, j as int);
                let s1 = cv.subrange(0, j + 1 as int);
                assert forall|k: Seq<char>| s1.contains(k) <==> (s0.contains(k) || k == cv[j as int]) by {
                    if s1.contains(k) {
                        let l = choose|l: int| 0 <= l < s1.len() && s1[l] == k;
                        if l < j {
                            assert(s0[l] == k);
                        }
                    }
                    if s0.contains(k) {
                        let l = choose|l: int| 0 <= l < s0.len() && s0[l] == k;
                        assert(s1[l] == k);
                    }
                    if k == cv[j as int] {
                        assert(s1[j as int] == k);
                    }
                }
                assert(self.table() =~= table.union_prefer_right(
                    claimed(cv.subrange(0, j + 1 as int), n as int),
                ));
            }
            j += 1;
        }
        assert(cv.subrange(0, cv.len() as int) =~= cv);
        proof {
            use_type_invariant(&*self);
            self.lemma_owners_exist();
        }
        Ok(())
    }

    /// Asks `plugin` for its commands and registers them all or none; see
    /// `register_plugin`.
    pub fn add_plugin(&mut self, plugin: P) -> (r: Result<(), String>)
        ensures
            r is Ok ==> final(self).plugins() == old(self).plugins().push(plugin) && old(
                self,
            ).table().submap_of(final(self).table()) && forall|k: Seq<char>| #[trigger]
                final(self).table().contains_key(k) && !old(self).table().contains_key(k)
                    ==> final(self).table()[k] == old(self).plugins().len(),
            r is Err ==> *final(self) == *old(self),
            match plugin.spec_commands() {
                Some(c) => {
                    &&& (r is Ok <==> fits(old(self).table(), c))
                    &&& r is Ok ==> final(self).table() == old(self).table().union_prefer_right(
                        claimed(c, old(self).plugins().len() as int),
                    )
                },
                None => true,
            },
            final(self).owners_exist(),
    {
        let cmds = plugin.commands();
        let ghost n = self.plugins().len() as int;
        let r = self.register_plugin(plugin, cmds);
        proof {
            if r is Ok {
                let cv = strings_view(cmds@);
                assert forall|k: Seq<char>| #[trigger] old(self).table().contains_key(k) implies self.table()[k]
                    == old(self).table()[k] by {
                    if claimed(cv, n).contains_key(k) {
                        let j = choose|j: int| 0 <= j < cv.len() && cv[j] == k;
                        assert(!collides(old(self).table(), cv, j));
                    }
                }
            }
        }
        r
    }

    /// Hands `cmd` and `buffer` to the plugin that owns `cmd` and returns
    /// what it returns. A command that nobody owns gives "command not found"
    /// and changes nothing.
    pub fn dispatch(&mut self, buffer: &mut Buffer, cmd: &str) -> (r: Result<(), String>)
        ensures
            !old(self).table().contains_key(cmd@) ==> (r matches Err(e) && e@
                == "command not found"@) && *final(self) == *old(self) && *final(buffer)
                == *old(buffer),
            old(self).table().contains_key(cmd@) ==> old(self).ran_owner(
                *final(self),
                old(buffer)@,
                final(buffer)@,
                cmd@,
                r,
            ),
            final(self).owners_exist(),
    {
        proof {
            use_type_invariant(&*self);
            self.lemma_owners_exist();
        }
        match self.find(cmd) {
            None => Err(String::from_str("command not found")),
            Some(i) => {
                let owner = self.commands[i].1;
                let CommandManager { mut plugins, commands } = self.take();
                let r = plugins[owner].dispatch(buffer, cmd);
                *self = CommandManager { plugins, commands };
                proof {
                    self.lemma_owners_exist();
                }
                r
            },
        }
    }

    /// Unloads every plugin, the last added first.
    pub fn unload_all(self) {
        let CommandManager { mut plugins, commands: _ } = self;
        while plugins.len() > 0
            decreases plugins@.len(),
        {
            match plugins.pop() {
                Some(p) => p.unload(),
                None => {},
            }
        }
    }
}

} // verus!
