//! The series list: one entry per series directory, each found again by
//! the index it was given when added.
pub mod resolve_dir;

use vstd::prelude::*;

use crate::series::automatch;
use crate::series::local;
use crate::series::local::LocalRoot;
use crate::series::root::RootPairing;

verus! {

/// Why a series could not be resolved.
#[derive(Debug)]
pub enum EntryError {
    ParseError(local::ParseError),
    Panic(String),
    Automatch(automatch::Error),
}

/// How far a series has come.
#[derive(Debug)]
pub enum EntryState {
    Detected,
    Scanning,
    Resolving(String),
    Resolved(RootPairing),
    Unresolved(LocalRoot),
    Failure { name: String, error: EntryError },
}

impl EntryState {
    /// The pairing of a resolved series.
    pub fn get_resolved(&self) -> (r: Option<&RootPairing>)
        ensures
            match self {
                EntryState::Resolved(p) => r == Some(p),
                _ => r is None,
            },
    {
        match self {
            EntryState::Resolved(series) => Some(series),
            _ => None,
        }
    }
}

/// A series in the list, with the index it was given when it was added.
#[derive(Debug)]
pub struct Entry {
    pub state: EntryState,
    /// Stable index that identifies the series regardless of where it stands
    /// in the list.
    pub stable_index: usize,
}

/// The series list.
#[derive(Debug)]
pub struct List(Vec<Entry>);

/// The position of the first entry with the given stable index.
pub open spec fn find_stable(entries: Seq<Entry>, stable_index: usize) -> Option<int> {
    if exists|i: int| 0 <= i < entries.len() && entries[i].stable_index == stable_index {
        Some(
            choose|i: int|
                0 <= i < entries.len() && entries[i].stable_index == stable_index && forall|
                    j: int,
                | 0 <= j < i ==> entries[j].stable_index != stable_index,
        )
    } else {
        None
    }
}

/// Each entry's stable index is its position.
pub open spec fn indexed(entries: Seq<Entry>) -> bool {
    forall|i: int| 0 <= i < entries.len() ==> (#[trigger] entries[i]).stable_index == i
}

/// The first matching position is the one `find_stable` names.
proof fn lemma_find_stable(entries: Seq<Entry>, stable_index: usize, i: int)
    requires
        0 <= i < entries.len(),
        entries[i].stable_index == stable_index,
        forall|j: int| 0 <= j < i ==> entries[j].stable_index != stable_index,
    ensures
        find_stable(entries, stable_index) == Some(i),
{
    let k = choose|k: int|
        0 <= k < entries.len() && entries[k].stable_index == stable_index && forall|j: int|
            0 <= j < k ==> entries[j].stable_index != stable_index;
    assert(0 <= k < entries.len() && entries[k].stable_index == stable_index && forall|j: int|
        0 <= j < k ==> entries[j].stable_index != stable_index);
    if k < i {
        assert(entries[k].stable_index != stable_index);
    }
    if i < k {
        assert(entries[i].stable_index != stable_index);
    }
}

/// In a list built by `new` and `push`, the series with stable index `k` is
/// the `k`-th one, and there is none past the end.
pub proof fn lemma_indexed_find_stable(entries: Seq<Entry>, stable_index: usize)
    requires
        indexed(entries),
    ensures
        find_stable(entries, stable_index) == (if stable_index < entries.len() {
            Some(stable_index as int)
        } else {
            None::<int>
        }),
{
    if stable_index < entries.len() {
        assert(entries[stable_index as int].stable_index == stable_index);
        assert forall|j: int| 0 <= j < stable_index implies entries[j].stable_index
            != stable_index by {
            assert(entries[j].stable_index == j);
        }
        lemma_find_stable(entries, stable_index, stable_index as int);
    } else {
        assert forall|i: int| 0 <= i < entries.len() implies entries[i].stable_index
            != stable_index by {
            assert(entries[i].stable_index == i);
        }
    }
}

/// A series pushed onto a list built by `new` and `push` is found again by
/// the stable index `push` gave it.
pub proof fn lemma_push_then_find(entries: Seq<Entry>, state: EntryState)
    requires
        indexed(entries),
        entries.len() < usize::MAX,
    ensures
        ({
            let pushed = entries.push(Entry { state, stable_index: entries.len() as usize });
            &&& indexed(pushed)
            &&& find_stable(pushed, entries.len() as usize) == Some(entries.len() as int)
            &&& pushed[entries.len() as int].state == state
        }),
{
    let pushed = entries.push(Entry { state, stable_index: entries.len() as usize });
    assert forall|i: int| 0 <= i < pushed.len() implies (#[trigger] pushed[i]).stable_index == i by {
        if i < entries.len() {
            assert(pushed[i] == entries[i]);
        }
    }
    lemma_indexed_find_stable(pushed, entries.len() as usize);
}

impl List {
    /// The entries, in list order.
    pub closed spec fn view(self) -> Seq<Entry> {
        self.0@
    }

    /// An empty list.
    pub fn new() -> (r: Self)
        ensures
            r.view() == Seq::<Entry>::empty(),
            indexed(r.view()),
    {
        List(Vec::new())
    }

    /// The entries, in list order.
    pub fn entries(&self) -> (r: &[Entry])
        ensures
            r@ == self.view(),
    {
        self.0.as_slice()
    }

    /// How many series the list holds.
    pub fn len(&self) -> (r: usize)
        ensures
            r == self.view().len(),
    {
        self.0.len()
    }

    /// Add a series; its stable index is the list's length before.
    pub fn push(&mut self, state: EntryState) -> (r: usize)
        ensures
            r == old(self).view().len(),
            final(self).view() == old(self).view().push(Entry { state, stable_index: r }),
            indexed(old(self).view()) ==> indexed(final(self).view()),
    {
        let stable_index = self.0.len();
        self.0.push(Entry { state, stable_index });
        stable_index
    }

    /// The state of the series with the given stable index.
    pub fn get_mut(&mut self, stable_index: usize) -> (r: Option<&mut EntryState>)
        ensures
            match find_stable(old(self).view(), stable_index) {
                Some(i) => {
                    &&& r is Some
                    &&& *r->0 == old(self).view()[i].state
                    &&& final(self).view() == old(self).view().update(
                        i,
                        Entry { state: *final(r->0), stable_index },
                    )
                },
                None => r is None && final(self).view() == old(self).view(),
            },
    {
        let mut i: usize = 0;
        while i < self.0.len()
            invariant
                i <= self.0@.len(),
                self.0@ == old(self).view(),
                forall|j: int| 0 <= j < i ==> self.0@[j].stable_index != stable_index,
            decreases self.0@.len() - i,
        {
            if self.0[i].stable_index == stable_index {
                proof {
                    lemma_find_stable(self.0@, stable_index, i as int);
                }
                return Some(&mut self.0[i].state);
            }
            i += 1;
        }
        None
    }

    /// Replace the state of the series with the given stable index; `false`
    /// when there is no such series.
    pub fn set(&mut self, stable_index: usize, state: EntryState) -> (r: bool)
        ensures
            match find_stable(old(self).view(), stable_index) {
                Some(i) => r && final(self).view() == old(self).view().update(
                    i,
                    Entry { state, stable_index },
                ),
                None => !r && final(self).view() == old(self).view(),
            },
            indexed(old(self).view()) ==> indexed(final(self).view()),
    {
        if let Some(existing) = self.get_mut(stable_index) {
            *existing = state;
            return true;
        }
        false
    }
}

} // verus!
