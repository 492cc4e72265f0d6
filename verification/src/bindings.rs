//! The variables of a run: a table from names to values in which no name
//! occurs twice.

use vstd::prelude::*;

verus! {

/// One variable: its name and its value.
#[derive(Debug, Clone)]
pub struct Binding {
    pub name: String,
    pub value: u32,
}

/// A table of variables.
#[derive(Debug, Clone)]
pub struct Bindings {
    entries: Vec<Binding>,
}

/// True when the entry at index `i` is the one of the name `name`.
pub open spec fn binds(entries: Seq<Binding>, i: int, name: Seq<char>) -> bool {
    0 <= i < entries.len() && entries[i].name@ == name
}

impl Bindings {
    /// The table's invariant: no name occurs twice.
    pub closed spec fn wf(&self) -> bool {
        forall|i: int, j: int|
            0 <= i < j < self.entries.len() ==> self.entries[i].name@ != self.entries[j].name@
    }

    /// The entries, in the order in which the names were first bound.
    pub closed spec fn entries(&self) -> Seq<Binding> {
        self.entries@
    }

    /// An empty table.
    pub fn new() -> (res: Bindings)
        ensures
            res.wf(),
            res@ == Map::<Seq<char>, u32>::empty(),
    {
        let res = Bindings { entries: Vec::new() };
        assert(res@ =~= Map::<Seq<char>, u32>::empty());
        res
    }

    /// The index of the entry of the given name, if there is one.
    fn find(&self, name: &String) -> (res: Option<usize>)
        ensures
            match res {
                Some(i) => binds(self.entries@, i as int, name@),
                None => forall|i: int| !binds(self.entries@, i, name@),
            },
    {
        let mut i: usize = 0;
        while i < self.entries.len()
            invariant
                i <= self.entries.len(),
                forall|j: int| 0 <= j < i ==> !binds(self.entries@, j, name@),
            decreases self.entries.len() - i,
        {
            if self.entries[i].name == *name {
                return Some(i);
            }
            i = i + 1;
        }
        None
    }

    /// The value bound to the given name, if any.
    pub fn get(&self, name: &String) -> (res: Option<u32>)
        requires
            self.wf(),
        ensures
            res == if self@.contains_key(name@) {
                Some(self@[name@])
            } else {
                None
            },
    {
        match self.find(name) {
            Some(i) => {
                proof {
                    self.lemma_entry(i as int);
                }
                Some(self.entries[i].value)
            },
            None => None,
        }
    }

    /// Binds the name to the value, in place of the value it was bound to, if
    /// any.
    pub fn insert(&mut self, name: String, value: u32)
        requires
            old(self).wf(),
        ensures
            final(self).wf(),
            final(self)@ == old(self)@.insert(name@, value),
    {
        let ghost before = self.entries@;
        let ghost key = name@;
        let ghost at: int;
        match self.find(&name) {
            Some(i) => {
                self.entries.set(i, Binding { name, value });
                proof {
                    at = i as int;
                }
            },
            None => {
                self.entries.push(Binding { name, value });
                proof {
                    at = before.len() as int;
                }
            },
        }
        proof {
            let after = self.entries@;
            assert(binds(after, at, key));
            assert(after[at].value == value);
            assert forall|i: int| 0 <= i < after.len() && i != at implies binds(
                before,
                i,
                #[trigger] after[i].name@,
            ) && after[i] == before[i] && after[i].name@ != key by {
                assert(!binds(before, i, key) || i == at);
            }
            assert forall|i: int, j: int| 0 <= i < j < after.len() implies after[i].name@
                != after[j].name@ by {
                if i != at && j != at {
                    assert(binds(before, i, after[i].name@));
                    assert(binds(before, j, after[j].name@));
                }
            }
            assert(final(self).wf());
            assert forall|k: Seq<char>|
                final(self)@.contains_key(k) == #[trigger] old(self)@.insert(
                    key,
                    value,
                ).contains_key(k) by {
                if final(self)@.contains_key(k) {
                    let i = choose|i: int| binds(after, i, k);
                    if k != key {
                        assert(binds(before, i, after[i].name@));
                    }
                }
                if old(self)@.insert(key, value).contains_key(k) {
                    if k != key {
                        let i = choose|i: int| binds(before, i, k);
                        assert(binds(before, i, k));
                        assert(i != at) by {
                            if i == at {
                                assert(binds(before, at, key) || at == before.len());
                            }
                        }
                        assert(binds(after, i, k));
                    } else {
                        assert(binds(after, at, k));
                    }
                }
            }
            assert forall|k: Seq<char>| #[trigger]
                final(self)@.contains_key(k) implies final(self)@[k] == old(self)@.insert(
                key,
                value,
            )[k] by {
                let i = choose|i: int| binds(after, i, k);
                final(self).lemma_entry(i);
                if k != key {
                    assert(binds(before, i, after[i].name@));
                    old(self).lemma_entry(i);
                } else {
                    assert(i == at);
                }
            }
            assert(final(self)@ =~= old(self)@.insert(key, value));
        }
    }

    /// Under the invariant, the table maps the name of each entry to that
    /// entry's value.
    pub proof fn lemma_entry(&self, i: int)
        requires
            self.wf(),
            0 <= i < self.entries().len(),
        ensures
            self@.contains_key(self.entries()[i].name@),
            self@[self.entries()[i].name@] == self.entries()[i].value,
    {
        let name = self.entries@[i].name@;
        assert(binds(self.entries@, i, name));
        let j = choose|j: int| binds(self.entries@, j, name);
        assert(j == i);
    }
}

impl View for Bindings {
    type V = Map<Seq<char>, u32>;

    /// The table as a map from names to values.
    closed spec fn view(&self) -> Map<Seq<char>, u32> {
        Map::new(
            |name: Seq<char>| exists|i: int| binds(self.entries@, i, name),
            |name: Seq<char>| self.entries@[choose|i: int| binds(self.entries@, i, name)].value,
        )
    }
}

} // verus!
