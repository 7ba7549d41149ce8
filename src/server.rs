use std::sync::{Arc, Mutex};
use vstd::prelude::*;

use crate::channel::Channel;
use crate::module::Module;

verus! {

#[verifier::external_type_specification]
#[verifier::external_body]
#[verifier::reject_recursive_types(T)]
pub struct ExMutex<T: ?Sized>(Mutex<T>);

/// The registry of channels and modules, shared by every connection.
pub type ServerPtr = Arc<Mutex<Server>>;

/// Channels by name, each created on first use and kept for the server's
/// lifetime, and the modules that have been registered by name.
#[derive(Debug)]
pub struct Server {
    pub channels: Vec<Arc<Channel>>,
    pub modules: Vec<(String, Arc<Module>)>,
}

impl Server {
    /// No two channels, and no two modules, share a name.
    pub open spec fn wf(&self) -> bool {
        &&& forall|i: int, j: int|
            0 <= i < j < self.channels@.len() ==> #[trigger] self.channels@[i].name@
                != #[trigger] self.channels@[j].name@
        &&& unique_names(self.modules@)
    }

    pub open spec fn has_channel(&self, name: Seq<char>) -> bool {
        exists|i: int| 0 <= i < self.channels@.len() && #[trigger] self.channels@[i].name@ == name
    }

    /// The channel registered under `name` (meaningful where `has_channel`).
    pub open spec fn channel_named(&self, name: Seq<char>) -> Arc<Channel> {
        self.channels@[choose|i: int|
            0 <= i < self.channels@.len() && #[trigger] self.channels@[i].name@ == name]
    }

    /// `after` is `before` once `name` has been looked up, creating its
    /// channel if there was none, and `r` is the channel handed back.
    pub open spec fn found_or_created(
        before: Server,
        after: Server,
        name: Seq<char>,
        r: Arc<Channel>,
    ) -> bool {
        &&& after.wf()
        &&& after.modules@ == before.modules@
        &&& if before.has_channel(name) {
            after.channels@ == before.channels@ && r == before.channel_named(name)
        } else {
            after.channels@ == before.channels@.push(r) && r.name@ == name
        }
    }

    /// The module registered under `name`, if any.
    pub open spec fn module_named(&self, name: Seq<char>) -> Option<Arc<Module>> {
        entry_named(self.modules@, name)
    }

    pub fn new() -> (r: Self)
        ensures
            r.wf(),
            r.channels@.len() == 0,
            r.modules@.len() == 0,
    {
        Server { channels: Vec::new(), modules: Vec::new() }
    }

    /// The position of the module named `name`, if there is one.
    fn module_index(&self, name: &String) -> (r: Option<usize>)
        ensures
            match r {
                Some(i) => i < self.modules@.len() && self.modules@[i as int].0@ == name@,
                None => forall|k: int|
                    0 <= k < self.modules@.len() ==> #[trigger] self.modules@[k].0@ != name@,
            },
    {
        let mut i: usize = 0;
        while i < self.modules.len()
            invariant
                i <= self.modules@.len(),
                forall|k: int| 0 <= k < i ==> #[trigger] self.modules@[k].0@ != name@,
            decreases self.modules@.len() - i,
        {
            if self.modules[i].0 == *name {
                return Some(i);
            }
            i = i + 1;
        }
        None
    }

    /// Registers `module` under `name`, replacing any module registered
    /// under that name before.
    pub fn register_module(&mut self, name: &str, module: Module)
        requires
            old(self).wf(),
        ensures
            final(self).wf(),
            final(self).channels@ == old(self).channels@,
            final(self).module_named(name@) matches Some(m) && *m == module,
            forall|other: Seq<char>|
                other != name@ ==> #[trigger] final(self).module_named(other) == old(
                    self,
                ).module_named(other),
    {
        let key = name.to_owned();
        let entry = Arc::new(module);
        let ghost before = self.modules@;
        match self.module_index(&key) {
            Some(i) => {
                self.modules.set(i, (key, entry));
                proof {
                    let after = self.modules@;
                    assert(after == before.update(i as int, after[i as int]));
                    assert(forall|k: int| 0 <= k < after.len() && k != i ==> after[k] == before[k]);
                    assert(after[i as int].0@ == name@);
                    let j = choose|j: int| 0 <= j < after.len() && #[trigger] after[j].0@ == name@;
                    assert(j == i);
                }
            },
            None => {
                self.modules.push((key, entry));
                proof {
                    let n = before.len() as int;
                    assert(self.modules@[n].0@ == name@);
                    let j = choose|j: int|
                        0 <= j < self.modules@.len() && #[trigger] self.modules@[j].0@ == name@;
                    if j < n {
                        assert(before[j].0@ == name@);
                    }
                }
            },
        }
        proof {
            lemma_other_entries_kept(before, self.modules@, name@);
        }
    }

    /// The module registered under `name`, if any.
    pub fn module(&self, name: &str) -> (r: Option<Arc<Module>>)
        requires
            self.wf(),
        ensures
            r == self.module_named(name@),
    {
        let key = name.to_owned();
        match self.module_index(&key) {
            Some(i) => {
                proof {
                    let j = choose|j: int|
                        0 <= j < self.modules@.len() && #[trigger] self.modules@[j].0@ == name@;
                    assert(j == i as int);
                }
                Some(self.modules[i].1.clone())
            },
            None => None,
        }
    }

    /// The position of the channel named `name`, if there is one.
    fn channel_index(&self, name: &String) -> (r: Option<usize>)
        ensures
            match r {
                Some(i) => i < self.channels@.len() && self.channels@[i as int].name@ == name@,
                None => !self.has_channel(name@),
            },
    {
        let mut i: usize = 0;
        while i < self.channels.len()
            invariant
                i <= self.channels@.len(),
                forall|k: int| 0 <= k < i ==> #[trigger] self.channels@[k].name@ != name@,
            decreases self.channels@.len() - i,
        {
            if self.channels[i].name == *name {
                return Some(i);
            }
            i = i + 1;
        }
        None
    }

    /// The channel named `name`, created and registered if there is none
    /// yet. Every lookup of one name hands back the same channel.
    pub fn find_or_create_channel(&mut self, name: &str) -> (r: Arc<Channel>)
        requires
            old(self).wf(),
        ensures
            Self::found_or_created(*old(self), *final(self), name@, r),
            final(self).has_channel(name@),
            r == final(self).channel_named(name@),
    {
        let key = name.to_owned();
        match self.channel_index(&key) {
            Some(i) => {
                let r = self.channels[i].clone();
                proof {
                    let j = choose|j: int|
                        0 <= j < self.channels@.len() && #[trigger] self.channels@[j].name@
                            == name@;
                    assert(j == i as int);
                }
                r
            },
            None => {
                let channel = Arc::new(Channel::new(name));
                let ghost before = self.channels@;
                self.channels.push(channel.clone());
                proof {
                    let n = before.len() as int;
                    assert(self.channels@[n].name@ == name@);
                    let j = choose|j: int|
                        0 <= j < self.channels@.len() && #[trigger] self.channels@[j].name@
                            == name@;
                    if j < n {
                        assert(before[j].name@ == name@);
                    }
                }
                channel
            },
        }
    }
}

/// No two of `entries` share a name.
pub open spec fn unique_names(entries: Seq<(String, Arc<Module>)>) -> bool {
    forall|i: int, j: int|
        0 <= i < j < entries.len() ==> #[trigger] entries[i].0@ != #[trigger] entries[j].0@
}

/// The entry registered under `name` in `entries`, if any.
pub open spec fn entry_named(entries: Seq<(String, Arc<Module>)>, name: Seq<char>) -> Option<
    Arc<Module>,
> {
    if exists|i: int| 0 <= i < entries.len() && #[trigger] entries[i].0@ == name {
        Some(entries[choose|i: int| 0 <= i < entries.len() && #[trigger] entries[i].0@ == name].1)
    } else {
        None
    }
}

/// Registering under `name` (replacing its entry in place, or appending a
/// new one) leaves what every other name finds unchanged.
proof fn lemma_other_entries_kept(
    before: Seq<(String, Arc<Module>)>,
    after: Seq<(String, Arc<Module>)>,
    name: Seq<char>,
)
    requires
        unique_names(before),
        unique_names(after),
        before.len() <= after.len(),
        forall|k: int| 0 <= k < before.len() && before[k].0@ != name ==> after[k] == before[k],
        forall|k: int| 0 <= k < after.len() && !(0 <= k < before.len() && before[k].0@ != name)
            ==> #[trigger] after[k].0@ == name,
    ensures
        forall|other: Seq<char>|
            other != name ==> #[trigger] entry_named(after, other) == entry_named(before, other),
{
    assert forall|other: Seq<char>| other != name implies #[trigger] entry_named(after, other)
        == entry_named(before, other) by {
        if exists|k: int| 0 <= k < after.len() && #[trigger] after[k].0@ == other {
            let a = choose|k: int| 0 <= k < after.len() && #[trigger] after[k].0@ == other;
            assert(before[a].0@ != name && after[a] == before[a]);
            let b = choose|k: int| 0 <= k < before.len() && #[trigger] before[k].0@ == other;
            assert(after[b] == before[b]);
            let c = choose|k: int| 0 <= k < after.len() && #[trigger] after[k].0@ == other;
            assert(b == c) by {
                if b < c {
                    assert(after[b].0@ != after[c].0@);
                } else if c < b {
                    assert(after[c].0@ != after[b].0@);
                }
            }
        } else {
            assert forall|k: int| 0 <= k < before.len() implies #[trigger] before[k].0@ != other by {
                if before[k].0@ != name {
                    assert(after[k] == before[k]);
                }
            }
        }
    }
}

/// Two lookups of the same name hand back the same channel, and the second
/// one leaves the registry as the first left it.
pub proof fn lemma_same_name_same_channel(
    s0: Server,
    s1: Server,
    s2: Server,
    name: Seq<char>,
    r1: Arc<Channel>,
    r2: Arc<Channel>,
)
    requires
        s0.wf(),
        Server::found_or_created(s0, s1, name, r1),
        Server::found_or_created(s1, s2, name, r2),
    ensures
        r1 == r2,
        s2.channels@ == s1.channels@,
{
    lemma_found_or_created_holds(s0, s1, name, r1);
    let j = choose|j: int|
        0 <= j < s1.channels@.len() && #[trigger] s1.channels@[j].name@ == name;
    assert(s1.has_channel(name));
}

/// After a lookup, the name looked up has a channel, and it is the one
/// handed back.
pub proof fn lemma_found_or_created_holds(s0: Server, s1: Server, name: Seq<char>, r: Arc<Channel>)
    requires
        s0.wf(),
        Server::found_or_created(s0, s1, name, r),
    ensures
        s1.has_channel(name),
        r == s1.channel_named(name),
{
    if s0.has_channel(name) {
        let j = choose|j: int|
            0 <= j < s0.channels@.len() && #[trigger] s0.channels@[j].name@ == name;
        assert(s1.channels@[j].name@ == name);
    } else {
        let n = s0.channels@.len() as int;
        assert(s1.channels@[n].name@ == name);
        let j = choose|j: int|
            0 <= j < s1.channels@.len() && #[trigger] s1.channels@[j].name@ == name;
        if j < n {
            assert(s0.channels@[j].name@ == name);
        }
    }
}

/// A lookup of any name, made in between, never changes the channel that
/// another name already has: whatever other connections look up, each name
/// keeps its one channel.
pub proof fn lemma_channel_kept(
    s0: Server,
    s1: Server,
    other: Seq<char>,
    r: Arc<Channel>,
    name: Seq<char>,
)
    requires
        s0.wf(),
        Server::found_or_created(s0, s1, other, r),
        s0.has_channel(name),
    ensures
        s1.has_channel(name),
        s1.channel_named(name) == s0.channel_named(name),
{
    let i = choose|i: int| 0 <= i < s0.channels@.len() && #[trigger] s0.channels@[i].name@ == name;
    assert(s1.channels@[i] == s0.channels@[i]);
    let j = choose|j: int| 0 <= j < s1.channels@.len() && #[trigger] s1.channels@[j].name@ == name;
}

} // verus!
