//! A small map from names to values, kept in the order in which the names came.

use crate::steps::Diffable;
use vstd::prelude::*;

verus! {

pub struct Entry<V> {
    pub name: String,
    pub value: V,
}

/// Values by name. No name occurs twice.
pub struct NamedEntries<V> {
    entries: Vec<Entry<V>>,
}

/// A value that says nothing but that its name is there.
#[derive(Clone, Copy, Debug, PartialEq, Eq)]
pub struct Present;

impl DeepView for Present {
    type V = ();

    open spec fn deep_view(&self) -> () {
        ()
    }
}

impl Diffable for Present {
    fn same(&self, other: &Self) -> (same: bool) {
        true
    }

    fn duplicate(&self) -> (copy: Self) {
        Present
    }
}

impl<V> NamedEntries<V> {
    #[verifier::type_invariant]
    spec fn names_are_distinct(&self) -> bool {
        forall|i: int, j: int|
            0 <= i < j < self.entries@.len() ==> (#[trigger] self.entries@[i]).name@ != (
            #[trigger] self.entries@[j]).name@
    }

    /// Some entry has the name.
    spec fn has(&self, name: Seq<char>) -> bool {
        exists|i: int| 0 <= i < self.entries@.len() && (#[trigger] self.entries@[i]).name@ == name
    }

    /// The position of the entry with the name.
    spec fn place_of(&self, name: Seq<char>) -> int {
        choose|i: int| 0 <= i < self.entries@.len() && (#[trigger] self.entries@[i]).name@ == name
    }

    spec fn count(&self) -> nat {
        self.entries@.len()
    }

    spec fn name_at(&self, i: int) -> Seq<char> {
        self.entries@[i].name@
    }

    spec fn value_at(&self, i: int) -> V {
        self.entries@[i].value
    }

    proof fn lemma_place(&self, i: int)
        requires
            self.names_are_distinct(),
            0 <= i < self.entries@.len(),
        ensures
            self.has(self.entries@[i].name@),
            self.place_of(self.entries@[i].name@) == i,
    {
        let name = self.entries@[i].name@;
        let chosen = self.place_of(name);
        assert(0 <= chosen < self.entries@.len() && self.entries@[chosen].name@ == name);
        if chosen < i {
            assert(self.entries@[chosen].name@ != self.entries@[i].name@);
        }
        if i < chosen {
            assert(self.entries@[i].name@ != self.entries@[chosen].name@);
        }
    }

    fn position(&self, name: &String) -> (found: Option<usize>)
        ensures
            found matches Some(i) ==> i < self.entries@.len() && self.entries@[i as int].name@
                == name@,
            found is None ==> !self.has(name@),
    {
        let mut i: usize = 0;
        while i < self.entries.len()
            invariant
                i <= self.entries@.len(),
                forall|j: int| 0 <= j < i ==> (#[trigger] self.entries@[j]).name@ != name@,
            decreases self.entries.len() - i,
        {
            if self.entries[i].name == *name {
                return Some(i);
            }
            i = i + 1;
        }
        None
    }
}

impl<V: DeepView> DeepView for NamedEntries<V> {
    type V = Map<Seq<char>, V::V>;

    closed spec fn deep_view(&self) -> Map<Seq<char>, V::V> {
        Map::new(
            |name: Seq<char>| self.has(name),
            |name: Seq<char>| self.entries@[self.place_of(name)].value.deep_view(),
        )
    }
}

impl<V: DeepView> NamedEntries<V> {
    /// No names.
    pub fn new() -> (empty: Self)
        ensures
            empty.deep_view() == Map::<Seq<char>, V::V>::empty(),
    {
        let empty = NamedEntries { entries: Vec::new() };
        assert(empty.deep_view() =~= Map::<Seq<char>, V::V>::empty());
        empty
    }

    /// The names are those of the view, each once, and each value is the one of its name.
    proof fn lemma_entries(&self)
        requires
            self.names_are_distinct(),
        ensures
            forall|i: int|
                0 <= i < self.count() ==> self.deep_view().contains_key(#[trigger] self.name_at(i))
                    && self.deep_view()[self.name_at(i)] == self.value_at(i).deep_view(),
            forall|i: int, j: int|
                0 <= i < j < self.count() ==> #[trigger] self.name_at(i) != #[trigger] self.name_at(
                    j,
                ),
            forall|name: Seq<char>|
                self.deep_view().contains_key(name) ==> exists|i: int|
                    0 <= i < self.count() && #[trigger] self.name_at(i) == name,
    {
        assert forall|i: int| 0 <= i < self.count() implies self.deep_view().contains_key(
            #[trigger] self.name_at(i),
        ) && self.deep_view()[self.name_at(i)] == self.value_at(i).deep_view() by {
            self.lemma_place(i);
        }
        assert forall|name: Seq<char>| self.deep_view().contains_key(name) implies exists|i: int|
            0 <= i < self.count() && #[trigger] self.name_at(i) == name by {
            let i = self.place_of(name);
            assert(self.name_at(i) == name);
        }
    }

    /// Whether the name is there.
    pub fn contains(&self, name: &String) -> (found: bool)
        ensures
            found == self.deep_view().contains_key(name@),
    {
        match self.position(name) {
            Some(i) => {
                assert(self.has(name@));
                true
            },
            None => false,
        }
    }

    /// The value of a name.
    pub fn get(&self, name: &String) -> (found: Option<&V>)
        ensures
            found.deep_view() == (if self.deep_view().contains_key(name@) {
                Some(self.deep_view()[name@])
            } else {
                None
            }),
    {
        proof {
            use_type_invariant(self);
        }
        match self.position(name) {
            Some(i) => {
                proof {
                    self.lemma_place(i as int);
                }
                Some(&self.entries[i].value)
            },
            None => None,
        }
    }

    /// The entries with the value for the name, in place of the one it had.
    pub fn insert(self, name: String, value: V) -> (updated: Self)
        ensures
            updated.deep_view() == self.deep_view().insert(name@, value.deep_view()),
    {
        proof {
            use_type_invariant(&self);
        }
        let ghost before = self;
        let ghost name_view = name@;
        let ghost value_view = value.deep_view();
        let found = self.position(&name);
        let mut entries = self.entries;
        match found {
            Some(i) => {
                entries.set(i, Entry { name, value });
            },
            None => {
                entries.push(Entry { name, value });
            },
        }
        proof {
            let place: int = match found {
                Some(i) => i as int,
                None => before.entries@.len() as int,
            };
            assert(entries@[place].name@ == name_view);
            assert forall|i: int, j: int| 0 <= i < j < entries@.len() implies (
            #[trigger] entries@[i]).name@ != (#[trigger] entries@[j]).name@ by {
                if i != place && j != place {
                    assert(before.entries@[i].name@ != before.entries@[j].name@);
                } else if found is Some {
                    assert(before.entries@[i].name@ != before.entries@[j].name@);
                } else {
                    assert(before.entries@[i].name@ != name_view);
                }
            }
        }
        let updated = NamedEntries { entries };
        proof {
            let place: int = match found {
                Some(i) => i as int,
                None => before.entries@.len() as int,
            };
            let target = before.deep_view().insert(name_view, value_view);
            assert forall|key: Seq<char>| updated.deep_view().contains_key(key)
                <==> target.contains_key(key) by {
                if updated.has(key) {
                    let i = updated.place_of(key);
                    if i != place {
                        assert(before.entries@[i].name@ == key);
                    }
                }
                if before.has(key) {
                    let i = before.place_of(key);
                    assert(updated.entries@[i].name@ == key);
                }
            }
            assert forall|key: Seq<char>| target.contains_key(key) implies updated.deep_view()[key]
                == target[key] by {
                if key == name_view {
                    updated.lemma_place(place);
                } else {
                    let i = before.place_of(key);
                    assert(updated.entries@[i].name@ == key);
                    updated.lemma_place(i);
                    before.lemma_place(i);
                }
            }
            assert(updated.deep_view() =~= target);
        }
        updated
    }

    /// The entries without the name, and the value that it had.
    pub fn remove(self, name: &String) -> (rest: (Self, Option<V>))
        ensures
            rest.0.deep_view() == self.deep_view().remove(name@),
            rest.1.deep_view() == (if self.deep_view().contains_key(name@) {
                Some(self.deep_view()[name@])
            } else {
                None
            }),
    {
        proof {
            use_type_invariant(&self);
        }
        let ghost before = self;
        match self.position(name) {
            Some(i) => {
                proof {
                    before.lemma_place(i as int);
                }
                let mut entries = self.entries;
                let entry = entries.remove(i);
                proof {
                    assert forall|a: int, b: int| 0 <= a < b < entries@.len() implies (
                    #[trigger] entries@[a]).name@ != (#[trigger] entries@[b]).name@ by {
                        let a_before = if a < i { a } else { a + 1 };
                        let b_before = if b < i { b } else { b + 1 };
                        assert(before.entries@[a_before].name@ != before.entries@[b_before].name@);
                    }
                }
                let kept = NamedEntries { entries };
                proof {
                    let target = before.deep_view().remove(name@);
                    assert forall|key: Seq<char>| kept.deep_view().contains_key(key)
                        <==> target.contains_key(key) by {
                        if kept.has(key) {
                            let k = kept.place_of(key);
                            let k_before = if k < i { k } else { k + 1 };
                            assert(before.entries@[k_before].name@ == key);
                            assert(before.entries@[k_before].name@ != before.entries@[i as int].name@);
                        }
                        if before.has(key) && key != name@ {
                            let k = before.place_of(key);
                            let k_after = if k < i { k } else { k - 1 };
                            assert(kept.entries@[k_after].name@ == key);
                        }
                    }
                    assert forall|key: Seq<char>| target.contains_key(key) implies kept.deep_view()[key]
                        == target[key] by {
                        let k = before.place_of(key);
                        let k_after = if k < i { k } else { k - 1 };
                        assert(kept.entries@[k_after].name@ == key);
                        kept.lemma_place(k_after);
                        before.lemma_place(k);
                    }
                    assert(kept.deep_view() =~= target);
                }
                (kept, Some(entry.value))
            },
            None => {
                assert(self.deep_view() =~= before.deep_view().remove(name@));
                (self, None)
            },
        }
    }
}

impl<V: Diffable> NamedEntries<V> {
    /// Whether every name of `self` has the same value in `other`.
    fn is_within(&self, other: &Self) -> (within: bool)
        ensures
            within == self.deep_view().submap_of(other.deep_view()),
    {
        proof {
            use_type_invariant(self);
            self.lemma_entries();
        }
        let mut i: usize = 0;
        while i < self.entries.len()
            invariant
                i <= self.entries@.len(),
                self.count() == self.entries@.len(),
                forall|j: int|
                    0 <= j < self.count() ==> self.deep_view().contains_key(
                        #[trigger] self.name_at(j),
                    ) && self.deep_view()[self.name_at(j)] == self.value_at(j).deep_view(),
                forall|name: Seq<char>|
                    self.deep_view().contains_key(name) ==> exists|j: int|
                        0 <= j < self.count() && #[trigger] self.name_at(j) == name,
                forall|j: int|
                    0 <= j < i ==> other.deep_view().contains_key(#[trigger] self.name_at(j))
                        && other.deep_view()[self.name_at(j)] == self.value_at(j).deep_view(),
            decreases self.entries.len() - i,
        {
            let same = match other.get(&self.entries[i].name) {
                Some(value) => value.same(&self.entries[i].value),
                None => false,
            };
            assert(self.name_at(i as int) == self.entries@[i as int].name@);
            assert(self.value_at(i as int) == self.entries@[i as int].value);
            if !same {
                assert(self.deep_view().contains_key(self.name_at(i as int)));
                return false;
            }
            i = i + 1;
        }
        proof {
            assert forall|name: Seq<char>| self.deep_view().contains_key(name) implies (
            #[trigger] other.deep_view().contains_key(name)) && self.deep_view()[name]
                == other.deep_view()[name] by {
                let j = choose|j: int| 0 <= j < self.count() && #[trigger] self.name_at(j) == name;
                assert(other.deep_view().contains_key(self.name_at(j)));
            }
        }
        true
    }
}

impl<V: Diffable> Diffable for NamedEntries<V> {
    fn same(&self, other: &Self) -> (same: bool) {
        let same = self.is_within(other) && other.is_within(self);
        proof {
            if same {
                assert(self.deep_view() =~= other.deep_view());
            }
        }
        same
    }

    fn duplicate(&self) -> (copy: Self) {
        proof {
            use_type_invariant(self);
            self.lemma_entries();
        }
        let mut copy: NamedEntries<V> = NamedEntries::new();
        let mut i: usize = 0;
        while i < self.entries.len()
            invariant
                i <= self.entries@.len(),
                self.count() == self.entries@.len(),
                forall|j: int|
                    0 <= j < self.count() ==> self.deep_view().contains_key(
                        #[trigger] self.name_at(j),
                    ) && self.deep_view()[self.name_at(j)] == self.value_at(j).deep_view(),
                forall|name: Seq<char>|
                    self.deep_view().contains_key(name) ==> exists|j: int|
                        0 <= j < self.count() && #[trigger] self.name_at(j) == name,
                forall|name: Seq<char>|
                    copy.deep_view().contains_key(name) <==> exists|j: int|
                        0 <= j < i && #[trigger] self.name_at(j) == name,
                forall|name: Seq<char>|
                    copy.deep_view().contains_key(name) ==> copy.deep_view()[name]
                        == self.deep_view()[name],
            decreases self.entries.len() - i,
        {
            let ghost before = copy.deep_view();
            assert(self.name_at(i as int) == self.entries@[i as int].name@);
            assert(self.value_at(i as int) == self.entries@[i as int].value);
            copy = copy.insert(self.entries[i].name.clone(), self.entries[i].value.duplicate());
            proof {
                assert forall|name: Seq<char>| copy.deep_view().contains_key(name) <==> exists|j: int|
                    0 <= j < i + 1 && #[trigger] self.name_at(j) == name by {
                    if before.contains_key(name) {
                        let j = choose|j: int| 0 <= j < i && #[trigger] self.name_at(j) == name;
                        assert(0 <= j < i + 1 && self.name_at(j) == name);
                    }
                    if name == self.name_at(i as int) {
                        assert(0 <= i < i + 1 && self.name_at(i as int) == name);
                    }
                    if exists|j: int| 0 <= j < i + 1 && #[trigger] self.name_at(j) == name {
                        let j = choose|j: int| 0 <= j < i + 1 && #[trigger] self.name_at(j) == name;
                        if j < i {
                            assert(before.contains_key(name));
                        }
                    }
                }
            }
            i = i + 1;
        }
        proof {
            assert forall|name: Seq<char>| self.deep_view().contains_key(name)
                <==> copy.deep_view().contains_key(name) by {
                if self.deep_view().contains_key(name) {
                    let j = choose|j: int| 0 <= j < self.count() && #[trigger] self.name_at(j) == name;
                    assert(0 <= j < i && self.name_at(j) == name);
                }
                if copy.deep_view().contains_key(name) {
                    let j = choose|j: int| 0 <= j < i && #[trigger] self.name_at(j) == name;
                    assert(self.deep_view().contains_key(self.name_at(j)));
                }
            }
            assert(copy.deep_view() =~= self.deep_view());
        }
        copy
    }
}

} // verus!
