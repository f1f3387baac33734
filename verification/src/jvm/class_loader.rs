//! The decisions of a class loader that searches class paths in order: the first class path
//! that holds a class, or that fails to read it, answers; one that lacks it passes the search
//! on to the next.
use vstd::prelude::*;

verus! {

/// What searching one class path for a class found.
#[derive(Debug, Clone, Copy, PartialEq, Eq, Structural)]
pub enum Lookup {
    /// The class path holds the class.
    Found,
    /// The class path does not hold the class.
    NotFound,
    /// Reading the class path failed.
    Failed,
}

/// What a class loader does next.
#[derive(Debug, Clone, Copy, PartialEq, Eq, Structural)]
pub enum LoadAction {
    /// Search the class path at this position.
    Ask(usize),
    /// Answer with what the class path at this position gave.
    Answer(usize),
    /// Answer that no class path holds the class.
    NotFound,
}

/// The action after the class path at `index`, of `count`, gave `lookup`.
pub open spec fn next_action_of(index: int, count: int, lookup: Lookup) -> LoadAction {
    match lookup {
        Lookup::NotFound => if index + 1 < count {
            LoadAction::Ask((index + 1) as usize)
        } else {
            LoadAction::NotFound
        },
        _ => LoadAction::Answer(index as usize),
    }
}

/// The answer of a search that asks the class paths from `index` on, each giving what
/// `lookups` holds for it.
pub open spec fn answer_from(lookups: Seq<Lookup>, index: int) -> LoadAction
    decreases lookups.len() - index,
{
    if index < 0 || index >= lookups.len() {
        LoadAction::NotFound
    } else if lookups[index] == Lookup::NotFound {
        answer_from(lookups, index + 1)
    } else {
        LoadAction::Answer(index as usize)
    }
}

/// Each step of a search keeps its answer: asking the next class path leads to the same
/// answer, and any other action is the answer.
pub proof fn lemma_step_keeps_answer(lookups: Seq<Lookup>, index: int)
    requires
        0 <= index < lookups.len() <= usize::MAX,
    ensures
        match next_action_of(index, lookups.len() as int, lookups[index]) {
            LoadAction::Ask(next) => next == index + 1 && answer_from(lookups, next as int) == answer_from(lookups, index),
            action => action == answer_from(lookups, index),
        },
{
    if lookups[index] == Lookup::NotFound {
        assert(answer_from(lookups, index) == answer_from(lookups, index + 1));
        if index + 1 < lookups.len() {
            assert(((index + 1) as usize) as int == index + 1);
        } else {
            assert(answer_from(lookups, index + 1) == LoadAction::NotFound);
        }
    }
}

/// The first action of a search over `count` class paths.
pub fn first_action(count: usize) -> (r: LoadAction)
    ensures
        r == (if count == 0 {
            LoadAction::NotFound
        } else {
            LoadAction::Ask(0)
        }),
{
    if count == 0 {
        LoadAction::NotFound
    } else {
        LoadAction::Ask(0)
    }
}

/// The action after the class path at `index`, of `count`, gave `lookup`: answer with what it
/// gave when it found the class or failed, and otherwise ask the next one, or answer that no
/// class path holds the class when it was the last.
pub fn next_action(index: usize, count: usize, lookup: Lookup) -> (r: LoadAction)
    requires
        index < count,
    ensures
        r == next_action_of(index as int, count as int, lookup),
{
    match lookup {
        Lookup::NotFound => if index + 1 < count {
            LoadAction::Ask(index + 1)
        } else {
            LoadAction::NotFound
        },
        _ => LoadAction::Answer(index),
    }
}

/// A search answers with the first class path that found the class or failed, and that no
/// class path holds it when each of them lacks it.
pub proof fn lemma_search_answers_first(lookups: Seq<Lookup>, index: int)
    requires
        0 <= index <= lookups.len(),
        lookups.len() <= usize::MAX,
    ensures
        answer_from(lookups, index) matches LoadAction::Answer(i) ==> index <= i < lookups.len() && lookups[i as int]
            != Lookup::NotFound && forall|j: int| index <= j < i ==> lookups[j] == Lookup::NotFound,
        answer_from(lookups, index) is NotFound <==> forall|j: int| index <= j < lookups.len() ==> lookups[j]
            == Lookup::NotFound,
        !(answer_from(lookups, index) is Ask),
    decreases lookups.len() - index,
{
    if index < lookups.len() {
        lemma_search_answers_first(lookups, index + 1);
    }
}

/// The classes that a caching class loader has loaded, by their binary names. Each name is
/// held once.
#[derive(Debug)]
pub struct ClassCache<V> {
    entries: Vec<(String, V)>,
}

impl<V> ClassCache<V> {
    #[verifier::type_invariant]
    spec fn names_unique(self) -> bool {
        forall|i: int, j: int|
            0 <= i < j < self.entries@.len() ==> (#[trigger] self.entries@[i]).0@ != (#[trigger] self.entries@[j]).0@
    }

    /// The names of the cached classes, in the order they were put.
    pub closed spec fn names(self) -> Seq<Seq<char>> {
        self.entries@.map_values(|e: (String, V)| e.0@)
    }

    /// Whether a class of this name is cached.
    pub open spec fn holds(self, name: Seq<char>) -> bool {
        self.names().contains(name)
    }

    /// The class cached under `name`.
    pub closed spec fn class_of(self, name: Seq<char>) -> V {
        self.entries@[self.names().index_of(name)].1
    }

    /// Creates an empty cache.
    pub fn new() -> (r: Self)
        ensures
            forall|name: Seq<char>| !r.holds(name),
    {
        ClassCache { entries: Vec::new() }
    }

    /// Returns the class cached under `name`, or `None` when none is.
    pub fn get(&self, name: &str) -> (r: Option<&V>)
        ensures
            r is Some <==> self.holds(name@),
            r matches Some(v) ==> *v == self.class_of(name@),
    {
        proof {
            use_type_invariant(self);
        }
        let key = name.to_owned();
        let mut i: usize = 0;
        while i < self.entries.len()
            invariant
                i <= self.entries@.len(),
                key@ == name@,
                forall|j: int| 0 <= j < i ==> self.entries@[j].0@ != name@,
                forall|a: int, b: int|
                    0 <= a < b < self.entries@.len() ==> (#[trigger] self.entries@[a]).0@ != (#[trigger] self.entries@[b]).0@,
            decreases self.entries@.len() - i,
        {
            if self.entries[i].0 == key {
                proof {
                    let names = self.names();
                    assert(names[i as int] == name@);
                    assert(names.contains(name@));
                    let k = names.index_of(name@);
                    assert(names[k] == name@);
                    assert(names[k] == self.entries@[k].0@);
                    if k < i {
                        assert(self.entries@[k].0@ != self.entries@[i as int].0@);
                    } else if k > i {
                        assert(self.entries@[i as int].0@ != self.entries@[k].0@);
                    }
                    assert(k == i);
                }
                return Some(&self.entries[i].1);
            }
            i = i + 1;
        }
        proof {
            if self.names().contains(name@) {
                let k = choose|k: int| 0 <= k < self.names().len() && self.names()[k] == name@;
                assert(self.entries@[k].0@ == name@);
            }
        }
        None
    }

    /// Caches `class` under `name`, which holds no class yet.
    pub fn put(&mut self, name: String, class: V)
        requires
            !old(self).holds(name@),
        ensures
            final(self).holds(name@),
            final(self).class_of(name@) == class,
            forall|other: Seq<char>|
                other != name@ ==> (final(self).holds(other) <==> old(self).holds(other)),
            forall|other: Seq<char>|
                other != name@ && old(self).holds(other) ==> final(self).class_of(other) == old(self).class_of(other),
    {
        proof {
            use_type_invariant(&*self);
        }
        let ghost before = self.entries@;
        let ghost n = name@;
        proof {
            assert forall|j: int| 0 <= j < before.len() implies before[j].0@ != n by {
                assert(self.names()[j] == before[j].0@);
            }
        }
        let mut entries = Vec::new();
        std::mem::swap(&mut entries, &mut self.entries);
        entries.push((name, class));
        self.entries = entries;
        proof {
            let old_names = before.map_values(|e: (String, V)| e.0@);
            let names = self.names();
            assert(names =~= old_names.push(n));
            assert(names[before.len() as int] == n);
            assert(names.contains(n));
            let kn = names.index_of(n);
            if kn != before.len() {
                assert(before[kn].0@ == n);
            }
            assert forall|other: Seq<char>| other != n implies (self.holds(other) <==> old_names.contains(other)) by {
                if names.contains(other) {
                    let k = choose|k: int| 0 <= k < names.len() && names[k] == other;
                    assert(old_names[k] == other);
                }
                if old_names.contains(other) {
                    let k = choose|k: int| 0 <= k < old_names.len() && old_names[k] == other;
                    assert(names[k] == other);
                }
            }
            assert forall|other: Seq<char>| other != n && old_names.contains(other) implies self.class_of(other)
                == before[old_names.index_of(other)].1 by {
                let k = old_names.index_of(other);
                assert(names[k] == other);
                assert(names.contains(other));
                let m = names.index_of(other);
                assert(m != before.len());
                assert(old_names[m] == other);
                if m != k {
                    assert(before[m].0@ == before[k].0@);
                }
            }
        }
    }
}

} // verus!
