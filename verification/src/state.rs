//! The handles of running dumps, kept until they are claimed.
//!
//! A server that hands out a dump in parts (its data, its diagnostics and
//! its exit status, each under the identifier of the run) keeps what is
//! not yet fetched here. A handle leaves the registry the moment it is
//! claimed, so it can be claimed once.

use vstd::prelude::*;
use crate::settings::Settings;

verus! {

/// A handle under the identifier of its run.
pub struct Entry<T> {
    pub id: u128,
    pub handle: T,
}

/// No identifier occurs twice.
pub open spec fn distinct<T>(entries: Seq<Entry<T>>) -> bool {
    forall|i: int, j: int|
        0 <= i < j < entries.len() ==> (#[trigger] entries[i]).id != (#[trigger] entries[j]).id
}

/// Whether some handle is kept under the identifier.
pub open spec fn holds<T>(entries: Seq<Entry<T>>, id: u128) -> bool {
    exists|i: int| 0 <= i < entries.len() && (#[trigger] entries[i]).id == id
}

/// Handles of one kind, each under the identifier of its run.
pub struct Registry<T> {
    entries: Vec<Entry<T>>,
}

impl<T> View for Registry<T> {
    type V = Seq<Entry<T>>;

    closed spec fn view(&self) -> Seq<Entry<T>> {
        self.entries@
    }
}

impl<T> Registry<T> {
    /// No identifier occurs twice.
    pub open spec fn wf(&self) -> bool {
        distinct(self@)
    }

    /// A registry that keeps nothing.
    pub fn new() -> (r: Registry<T>)
        ensures
            r@ == Seq::<Entry<T>>::empty(),
            r.wf(),
    {
        Registry { entries: Vec::new() }
    }

    /// The number of handles kept.
    pub fn len(&self) -> (n: usize)
        ensures
            n == self@.len(),
    {
        self.entries.len()
    }

    /// Where the handle under an identifier stands, if one is kept.
    fn position(&self, id: u128) -> (r: Option<usize>)
        ensures
            match r {
                Some(i) => i < self@.len() && self@[i as int].id == id,
                None => !holds(self@, id),
            },
    {
        let mut i: usize = 0;
        while i < self.entries.len()
            invariant
                i <= self.entries@.len(),
                forall|j: int| 0 <= j < i ==> (#[trigger] self.entries@[j]).id != id,
            decreases self.entries@.len() - i,
        {
            if self.entries[i].id == id {
                return Some(i);
            }
            i += 1;
        }
        None
    }

    /// Whether a handle is kept under the identifier.
    pub fn contains(&self, id: u128) -> (r: bool)
        ensures
            r == holds(self@, id),
    {
        self.position(id).is_some()
    }

    /// Hands out the handle kept under an identifier and keeps it no
    /// longer: the same identifier gives nothing a second time.
    pub fn remove(&mut self, id: u128) -> (r: Option<T>)
        requires
            old(self).wf(),
        ensures
            final(self).wf(),
            !holds(final(self)@, id),
            r.is_some() == holds(old(self)@, id),
            match r {
                Some(handle) => exists|i: int|
                    0 <= i < old(self)@.len() && (#[trigger] old(self)@[i]).id == id && old(
                        self,
                    )@[i].handle == handle && final(self)@ == old(self)@.remove(i),
                None => final(self)@ == old(self)@,
            },
    {
        match self.position(id) {
            Some(i) => {
                let entry: Entry<T> = self.entries.remove(i);
                proof {
                    let before = old(self)@;
                    let after = self@;
                    assert(after =~= before.remove(i as int));
                    assert forall|a: int, b: int| 0 <= a < b < after.len() implies (
                    #[trigger] after[a]).id != (#[trigger] after[b]).id by {
                        let a0 = if a < i { a } else { a + 1 };
                        let b0 = if b < i { b } else { b + 1 };
                        assert(after[a] == before[a0]);
                        assert(after[b] == before[b0]);
                    }
                    assert forall|a: int| 0 <= a < after.len() implies (#[trigger] after[a]).id
                        != id by {
                        let a0 = if a < i { a } else { a + 1 };
                        assert(after[a] == before[a0]);
                        assert(before[i as int].id == id);
                    }
                }
                Some(entry.handle)
            },
            None => None,
        }
    }

    /// Keeps a handle under an identifier. A handle that was kept under
    /// the same identifier is handed back and kept no longer.
    pub fn insert(&mut self, id: u128, handle: T) -> (r: Option<T>)
        requires
            old(self).wf(),
        ensures
            final(self).wf(),
            holds(final(self)@, id),
            final(self)@.last().id == id,
            final(self)@.last().handle == handle,
            r.is_some() == holds(old(self)@, id),
            match r {
                Some(replaced) => exists|i: int|
                    0 <= i < old(self)@.len() && (#[trigger] old(self)@[i]).id == id && old(
                        self,
                    )@[i].handle == replaced && final(self)@.drop_last() == old(self)@.remove(i),
                None => final(self)@.drop_last() == old(self)@,
            },
    {
        let replaced: Option<T> = self.remove(id);
        let ghost kept = self@;
        self.entries.push(Entry { id, handle });
        proof {
            assert(self@.drop_last() =~= kept);
            assert(self@[self@.len() - 1].id == id);
            assert forall|a: int, b: int| 0 <= a < b < self@.len() implies (#[trigger] self@[a]).id
                != (#[trigger] self@[b]).id by {
                assert(self@[a] == kept[a]);
                if b < kept.len() {
                    assert(self@[b] == kept[b]);
                }
            }
        }
        replaced
    }
}

/// What an agent that hands out dumps in parts shares among its requests:
/// its configuration, and for each kind of handle the ones not yet claimed.
pub struct State<C, O, E> {
    pub settings: Settings,
    /// The processes whose exit status was not yet asked for.
    pub commands: Registry<C>,
    /// The data channels not yet fetched.
    pub stdouts: Registry<O>,
    /// The diagnostic channels not yet fetched.
    pub stderrs: Registry<E>,
}

impl<C, O, E> State<C, O, E> {
    /// Every registry is sound.
    pub open spec fn wf(&self) -> bool {
        self.commands.wf() && self.stdouts.wf() && self.stderrs.wf()
    }

    /// The state of an agent that has started no dump.
    pub fn new(settings: Settings) -> (s: State<C, O, E>)
        ensures
            s.settings == settings,
            s.commands@ == Seq::<Entry<C>>::empty(),
            s.stdouts@ == Seq::<Entry<O>>::empty(),
            s.stderrs@ == Seq::<Entry<E>>::empty(),
            s.wf(),
    {
        State {
            settings,
            commands: Registry::new(),
            stdouts: Registry::new(),
            stderrs: Registry::new(),
        }
    }

    /// Keeps the handles of a dump that was started under `id`.
    pub fn register(&mut self, id: u128, command: C, stdout: O, stderr: E)
        requires
            old(self).wf(),
        ensures
            final(self).wf(),
            final(self).settings == old(self).settings,
            holds(final(self).commands@, id),
            holds(final(self).stdouts@, id),
            holds(final(self).stderrs@, id),
            final(self).commands@.last().handle == command,
            final(self).stdouts@.last().handle == stdout,
            final(self).stderrs@.last().handle == stderr,
    {
        self.commands.insert(id, command);
        self.stdouts.insert(id, stdout);
        self.stderrs.insert(id, stderr);
    }

    /// Drops what is still kept of the dump under `id`, as is done when it
    /// was not fetched in time. What was claimed before is not touched,
    /// and nothing under `id` can be claimed afterwards.
    pub fn purge(&mut self, id: u128)
        requires
            old(self).wf(),
        ensures
            final(self).wf(),
            final(self).settings == old(self).settings,
            !holds(final(self).commands@, id),
            !holds(final(self).stdouts@, id),
            !holds(final(self).stderrs@, id),
    {
        self.commands.remove(id);
        self.stdouts.remove(id);
        self.stderrs.remove(id);
    }
}

} // verus!
