//! A table keyed by name.
//!
//! Sounds are known by their path and output streams by their device's name.
//! Both tables are small, filled rarely and read often; a vector searched from
//! the front serves them, and its meaning is a map from the name's text.

use vstd::prelude::*;
use crate::assoc::{lemma_paired_at, lemma_paired_push, lemma_paired_remove, paired};

verus! {

/// One entry of a [`NameMap`].
pub struct Named<V> {
    pub name: String,
    pub value: V,
}

/// A map from names to values in which every name occurs once.
pub struct NameMap<V> {
    entries: Vec<Named<V>>,
}

impl<V> NameMap<V> {
    /// The names, in the order in which they were added.
    pub closed spec fn names(&self) -> Seq<Seq<char>> {
        Seq::new(self.entries@.len(), |i: int| self.entries@[i].name@)
    }

    /// The values, in the order of their names.
    pub closed spec fn values(&self) -> Seq<V> {
        Seq::new(self.entries@.len(), |i: int| self.entries@[i].value)
    }

    /// No name occurs twice.
    pub closed spec fn wf(&self) -> bool {
        self.names().no_duplicates()
    }

    /// The table as a map from the text of a name to its value.
    pub closed spec fn view(&self) -> Map<Seq<char>, V> {
        paired(self.names(), self.values())
    }

    /// An empty table.
    pub fn new() -> (table: Self)
        ensures
            table.wf(),
            table@ == Map::<Seq<char>, V>::empty(),
    {
        let table = NameMap { entries: Vec::new() };
        assert(table@ =~= Map::<Seq<char>, V>::empty());
        table
    }

    /// The number of names.
    pub fn len(&self) -> (n: usize)
        requires
            self.wf(),
        ensures
            n == self@.dom().len(),
            self@.dom().finite(),
    {
        proof {
            self.lemma_dom();
        }
        self.entries.len()
    }

    proof fn lemma_dom(&self)
        requires
            self.wf(),
        ensures
            self@.dom() == self.names().to_set(),
            self@.dom().finite(),
            self@.dom().len() == self.entries@.len(),
    {
        assert(self@.dom() =~= self.names().to_set());
        self.names().unique_seq_to_set();
    }

    fn position(&self, name: &String) -> (at: Option<usize>)
        requires
            self.wf(),
        ensures
            match at {
                Some(i) => i < self.entries@.len() && self.names()[i as int] == name@
                    && self@.contains_key(name@),
                None => !self@.contains_key(name@),
            },
    {
        let mut i: usize = 0;
        while i < self.entries.len()
            invariant
                i <= self.entries@.len(),
                forall|j: int| 0 <= j < i ==> self.entries@[j].name@ != name@,
            decreases self.entries@.len() - i,
        {
            if self.entries[i].name == *name {
                assert(self.names()[i as int] == name@);
                return Some(i);
            }
            i += 1;
        }
        None
    }

    /// Whether `name` is in the table.
    pub fn contains(&self, name: &str) -> (found: bool)
        requires
            self.wf(),
        ensures
            found == self@.contains_key(name@),
    {
        let key = name.to_owned();
        self.position(&key).is_some()
    }

    /// The value stored under `name`.
    pub fn get(&self, name: &str) -> (found: Option<&V>)
        requires
            self.wf(),
        ensures
            match found {
                Some(value) => self@.contains_key(name@) && *value == self@[name@],
                None => !self@.contains_key(name@),
            },
    {
        let key = name.to_owned();
        match self.position(&key) {
            Some(i) => {
                proof {
                    lemma_paired_at(self.names(), self.values(), i as int);
                }
                Some(&self.entries[i].value)
            },
            None => None,
        }
    }

    /// Stores `value` under `name` unless the name is taken. A value that was
    /// not stored is handed back.
    pub fn insert_absent(&mut self, name: String, value: V) -> (rejected: Option<V>)
        requires
            old(self).wf(),
        ensures
            final(self).wf(),
            match rejected {
                Some(back) => old(self)@.contains_key(name@) && back == value && final(self)@ == old(self)@,
                None => !old(self)@.contains_key(name@) && final(self)@ == old(self)@.insert(name@, value),
            },
    {
        match self.position(&name) {
            Some(_) => Some(value),
            None => {
                proof {
                    lemma_paired_push(self.names(), self.values(), name@, value);
                }
                let ghost before_names = self.names();
                let ghost before_values = self.values();
                self.entries.push(Named { name, value });
                assert(self.names() =~= before_names.push(name@));
                assert(self.values() =~= before_values.push(value));
                None
            },
        }
    }

    /// Takes `name` out of the table.
    pub fn remove(&mut self, name: &str) -> (taken: Option<V>)
        requires
            old(self).wf(),
        ensures
            final(self).wf(),
            final(self)@ == old(self)@.remove(name@),
            match taken {
                Some(value) => old(self)@.contains_key(name@) && value == old(self)@[name@],
                None => !old(self)@.contains_key(name@),
            },
    {
        let key = name.to_owned();
        match self.position(&key) {
            Some(i) => {
                proof {
                    lemma_paired_at(self.names(), self.values(), i as int);
                    lemma_paired_remove(self.names(), self.values(), i as int);
                }
                let ghost before_names = self.names();
                let ghost before_values = self.values();
                let entry = self.entries.remove(i);
                assert(self.names() =~= before_names.remove(i as int));
                assert(self.values() =~= before_values.remove(i as int));
                Some(entry.value)
            },
            None => {
                assert(self@.remove(name@) =~= self@);
                None
            },
        }
    }

    /// Drops every name but `name`.
    pub fn retain_only(&mut self, name: &str)
        requires
            old(self).wf(),
        ensures
            final(self).wf(),
            final(self)@ == old(self)@.restrict(set![name@]),
    {
        let kept = self.remove(name);
        let ghost without = self@;
        self.entries.clear();
        assert(self.names() =~= Seq::<Seq<char>>::empty());
        assert(self@ =~= Map::<Seq<char>, V>::empty());
        match kept {
            Some(value) => {
                let key = name.to_owned();
                let rejected = self.insert_absent(key, value);
                assert(self@ =~= old(self)@.restrict(set![name@]));
            },
            None => {
                assert(self@ =~= old(self)@.restrict(set![name@]));
            },
        }
    }
}

} // verus!
