//! Tables keyed by strings.

use crate::text::same_text;
use vstd::prelude::*;

verus! {

/// The map that a list of entries stands for: of two entries with one key the later counts.
pub open spec fn entries_map<V>(entries: Seq<(String, V)>) -> Map<Seq<char>, V>
    decreases entries.len(),
{
    if entries.len() == 0 {
        Map::empty()
    } else {
        entries_map(entries.drop_last()).insert(entries.last().0@, entries.last().1)
    }
}

/// A table from strings to values, as the list of its entries.
#[derive(Debug)]
pub struct Table<V> {
    pub entries: Vec<(String, V)>,
}

impl<V> View for Table<V> {
    type V = Map<Seq<char>, V>;

    open spec fn view(&self) -> Map<Seq<char>, V> {
        entries_map(self.entries@)
    }
}

pub(crate) proof fn lemma_entry_found<V>(entries: Seq<(String, V)>, at: int)
    requires
        0 <= at < entries.len(),
        forall|j: int| at < j < entries.len() ==> (#[trigger] entries[j]).0@ != entries[at].0@,
    ensures
        entries_map(entries).contains_key(entries[at].0@),
        entries_map(entries)[entries[at].0@] == entries[at].1,
    decreases entries.len(),
{
    if at < entries.len() - 1 {
        let rest = entries.drop_last();
        assert(rest[at] == entries[at]);
        assert(entries[entries.len() - 1].0@ != entries[at].0@);
        assert forall|j: int| at < j < rest.len() implies (#[trigger] rest[j]).0@ != rest[at].0@ by {
            assert(rest[j] == entries[j]);
        }
        lemma_entry_found(rest, at);
    }
}

pub(crate) proof fn lemma_entry_absent<V>(entries: Seq<(String, V)>, key: Seq<char>)
    requires
        forall|j: int| 0 <= j < entries.len() ==> (#[trigger] entries[j]).0@ != key,
    ensures
        !entries_map(entries).contains_key(key),
    decreases entries.len(),
{
    if entries.len() > 0 {
        let rest = entries.drop_last();
        assert forall|j: int| 0 <= j < rest.len() implies (#[trigger] rest[j]).0@ != key by {
            assert(rest[j] == entries[j]);
        }
        lemma_entry_absent(rest, key);
    }
}

pub(crate) proof fn lemma_entry_replaced<V>(
    entries: Seq<(String, V)>,
    at: int,
    entry: (String, V),
)
    requires
        0 <= at < entries.len(),
        entry.0@ == entries[at].0@,
        forall|j: int| at < j < entries.len() ==> (#[trigger] entries[j]).0@ != entries[at].0@,
    ensures
        entries_map(entries.update(at, entry)) == entries_map(entries).insert(entry.0@, entry.1),
    decreases entries.len(),
{
    let changed = entries.update(at, entry);
    let rest = entries.drop_last();
    if at == entries.len() - 1 {
        assert(changed.drop_last() =~= rest);
        assert(entries_map(changed) =~= entries_map(entries).insert(entry.0@, entry.1));
    } else {
        assert(changed.drop_last() =~= rest.update(at, entry));
        assert(rest[at] == entries[at]);
        assert forall|j: int| at < j < rest.len() implies (#[trigger] rest[j]).0@ != rest[at].0@ by {
            assert(rest[j] == entries[j]);
        }
        lemma_entry_replaced(rest, at, entry);
        assert(changed.last() == entries.last());
        assert(entries[entries.len() - 1].0@ != entries[at].0@);
        assert(entries_map(changed) =~= entries_map(entries).insert(entry.0@, entry.1));
    }
}

impl<V> Table<V> {
    /// A table without entries.
    pub fn new() -> (table: Table<V>)
        ensures
            table@ == Map::<Seq<char>, V>::empty(),
    {
        Table { entries: Vec::new() }
    }

    /// Where the entry stands that counts for `key`.
    fn position(&self, key: &str) -> (at: Option<usize>)
        ensures
            match at {
                Some(at) => {
                    &&& at < self.entries@.len()
                    &&& self.entries@[at as int].0@ == key@
                    &&& forall|j: int|
                        at < j < self.entries@.len() ==> (#[trigger] self.entries@[j]).0@ != key@
                },
                None => forall|j: int|
                    0 <= j < self.entries@.len() ==> (#[trigger] self.entries@[j]).0@ != key@,
            },
    {
        let mut i: usize = self.entries.len();
        while i > 0
            invariant
                i <= self.entries@.len(),
                forall|j: int|
                    i <= j < self.entries@.len() ==> (#[trigger] self.entries@[j]).0@ != key@,
            decreases i,
        {
            if same_text(self.entries[i - 1].0.as_str(), key) {
                return Some(i - 1);
            }
            i = i - 1;
        }
        None
    }

    /// The value under `key`.
    pub fn get(&self, key: &str) -> (value: Option<&V>)
        ensures
            match value {
                Some(value) => self@.contains_key(key@) && *value == self@[key@],
                None => !self@.contains_key(key@),
            },
    {
        match self.position(key) {
            Some(at) => {
                proof {
                    lemma_entry_found(self.entries@, at as int);
                }
                Some(&self.entries[at].1)
            },
            None => {
                proof {
                    lemma_entry_absent(self.entries@, key@);
                }
                None
            },
        }
    }

    /// Put `value` under `key`, in place of what stood there.
    pub fn insert(&mut self, key: String, value: V)
        ensures
            final(self)@ == old(self)@.insert(key@, value),
    {
        let ghost before = self.entries@;
        match self.position(key.as_str()) {
            Some(at) => {
                proof {
                    lemma_entry_replaced(before, at as int, (key, value));
                }
                self.entries[at] = (key, value);
            },
            None => {
                self.entries.push((key, value));
                assert(self.entries@.drop_last() =~= before);
            },
        }
    }
}

} // verus!
