//! An ordered mapping from names to values, the building block of scopes,
//! field tables and method tables.

use vstd::prelude::*;
use vstd::string::StringExecFns;

verus! {

/// One binding of a table.
pub struct Entry<V> {
    pub name: String,
    pub value: V,
}

/// The mapping that a sequence of bindings stands for: a later binding of a
/// name hides the earlier ones.
pub open spec fn bindings<V: View>(entries: Seq<Entry<V>>) -> Map<Seq<char>, V::V>
    decreases entries.len(),
{
    if entries.len() == 0 {
        Map::empty()
    } else {
        bindings(entries.drop_last()).insert(entries.last().name@, entries.last().value@)
    }
}

/// No binding of `entries` from index `from` on carries the name `name`.
pub open spec fn absent_from<V>(entries: Seq<Entry<V>>, name: Seq<char>, from: int) -> bool {
    forall|j: int| from <= j < entries.len() ==> (#[trigger] entries[j]).name@ != name
}

/// A name that no binding carries is not bound.
pub proof fn lemma_bindings_absent<V: View>(entries: Seq<Entry<V>>, name: Seq<char>)
    requires
        absent_from(entries, name, 0),
    ensures
        !bindings(entries).contains_key(name),
    decreases entries.len(),
{
    if entries.len() > 0 {
        let rest = entries.drop_last();
        assert(entries.last() == entries[entries.len() - 1]);
        assert forall|j: int| 0 <= j < rest.len() implies (#[trigger] rest[j]).name@ != name by {
            assert(rest[j] == entries[j]);
        }
        lemma_bindings_absent(rest, name);
    }
}

/// A name is bound to the value of the last binding that carries it.
pub proof fn lemma_bindings_last<V: View>(entries: Seq<Entry<V>>, name: Seq<char>, i: int)
    requires
        0 <= i < entries.len(),
        entries[i].name@ == name,
        absent_from(entries, name, i + 1),
    ensures
        bindings(entries).contains_key(name),
        bindings(entries)[name] == entries[i].value@,
    decreases entries.len(),
{
    if i < entries.len() - 1 {
        let rest = entries.drop_last();
        assert(entries.last() == entries[entries.len() - 1]);
        assert(rest[i] == entries[i]);
        assert forall|j: int| i + 1 <= j < rest.len() implies (#[trigger] rest[j]).name@ != name by {
            assert(rest[j] == entries[j]);
        }
        lemma_bindings_last(rest, name, i);
    }
}

/// Replacing the last binding of a name by another binding of that name
/// binds the name anew and leaves every other name as it was.
pub proof fn lemma_bindings_update<V: View>(entries: Seq<Entry<V>>, i: int, entry: Entry<V>)
    requires
        0 <= i < entries.len(),
        entries[i].name@ == entry.name@,
        absent_from(entries, entry.name@, i + 1),
    ensures
        bindings(entries.update(i, entry)) == bindings(entries).insert(entry.name@, entry.value@),
    decreases entries.len(),
{
    let updated = entries.update(i, entry);
    let rest = entries.drop_last();
    if i == entries.len() - 1 {
        assert(updated.drop_last() == rest);
        assert(bindings(updated) == bindings(rest).insert(entry.name@, entry.value@));
        assert(bindings(entries) == bindings(rest).insert(entry.name@, entries[i].value@));
        assert(bindings(updated) == bindings(entries).insert(entry.name@, entry.value@));
    } else {
        assert(entries.last() == entries[entries.len() - 1]);
        assert(rest[i] == entries[i]);
        assert forall|j: int| i + 1 <= j < rest.len() implies (#[trigger] rest[j]).name@
            != entry.name@ by {
            assert(rest[j] == entries[j]);
        }
        lemma_bindings_update(rest, i, entry);
        assert(updated.drop_last() == rest.update(i, entry));
        assert(updated.last() == entries.last());
        assert(entries.last().name@ != entry.name@);
        assert(bindings(updated) == bindings(entries).insert(entry.name@, entry.value@));
    }
}

/// A mapping from names to values. Its view is the mathematical map.
pub struct Table<V> {
    entries: Vec<Entry<V>>,
}

impl<V: View> View for Table<V> {
    type V = Map<Seq<char>, V::V>;

    closed spec fn view(&self) -> Map<Seq<char>, V::V> {
        bindings(self.entries@)
    }
}

impl<V: View> Table<V> {
    /// The empty table.
    pub fn new() -> (table: Self)
        ensures
            table@ == Map::<Seq<char>, V::V>::empty(),
    {
        Table { entries: Vec::new() }
    }

    /// The index of the binding that decides `name`, if the table binds it.
    fn position(&self, name: &str) -> (found: Option<usize>)
        ensures
            match found {
                Some(i) => i < self.entries.len() && self.entries[i as int].name@ == name@
                    && absent_from(self.entries@, name@, i + 1),
                None => absent_from(self.entries@, name@, 0),
            },
    {
        let key = String::from_str(name);
        let mut i: usize = self.entries.len();
        while i > 0
            invariant
                i <= self.entries.len(),
                key@ == name@,
                absent_from(self.entries@, name@, i as int),
            decreases i,
        {
            i = i - 1;
            if self.entries[i].name == key {
                return Some(i);
            }
        }
        None
    }

    /// Whether the table binds `name`.
    pub fn contains_key(&self, name: &str) -> (bound: bool)
        ensures
            bound == self@.contains_key(name@),
    {
        let found = self.position(name);
        proof {
            match found {
                Some(i) => lemma_bindings_last(self.entries@, name@, i as int),
                None => lemma_bindings_absent(self.entries@, name@),
            }
        }
        found.is_some()
    }

    /// The value bound to `name`, if any.
    pub fn get(&self, name: &str) -> (found: Option<&V>)
        ensures
            match found {
                Some(value) => self@.contains_key(name@) && value@ == self@[name@],
                None => !self@.contains_key(name@),
            },
    {
        match self.position(name) {
            Some(i) => {
                proof {
                    lemma_bindings_last(self.entries@, name@, i as int);
                }
                Some(&self.entries[i].value)
            },
            None => {
                proof {
                    lemma_bindings_absent(self.entries@, name@);
                }
                None
            },
        }
    }

    /// Binds `name` to `value`, replacing what the name was bound to before.
    pub fn insert(&mut self, name: String, value: V)
        ensures
            final(self)@ == old(self)@.insert(name@, value@),
    {
        let found = self.position(name.as_str());
        let entry = Entry { name, value };
        match found {
            Some(i) => {
                proof {
                    lemma_bindings_update(self.entries@, i as int, entry);
                }
                self.entries[i] = entry;
            },
            None => {
                self.entries.push(entry);
                assert(self.entries@.drop_last() == old(self).entries@);
            },
        }
    }
}

} // verus!
