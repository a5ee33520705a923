//! Sets of names.

use crate::text::{same_text, views};
use vstd::prelude::*;

verus! {

/// A set of names.
#[derive(Debug)]
pub struct NameSet {
    pub names: Vec<String>,
}

impl View for NameSet {
    type V = Set<Seq<char>>;

    open spec fn view(&self) -> Set<Seq<char>> {
        views(self.names@).to_set()
    }
}

impl NameSet {
    /// Whether no name is listed twice.
    pub open spec fn distinct(&self) -> bool {
        views(self.names@).no_duplicates()
    }

    /// A set without names.
    pub fn new() -> (set: NameSet)
        ensures
            set@ == Set::<Seq<char>>::empty(),
            set.distinct(),
    {
        let set = NameSet { names: Vec::new() };
        assert(views(set.names@) =~= Seq::<Seq<char>>::empty());
        assert(set@ =~= Set::<Seq<char>>::empty());
        set
    }

    /// Take every name out.
    pub fn clear(&mut self)
        ensures
            final(self)@ == Set::<Seq<char>>::empty(),
            final(self).distinct(),
    {
        *self = NameSet::new();
    }

    /// Whether `name` is in this set.
    pub fn contains(&self, name: &str) -> (found: bool)
        ensures
            found == self@.contains(name@),
    {
        let ghost list = views(self.names@);
        let mut i: usize = 0;
        while i < self.names.len()
            invariant
                i <= self.names@.len(),
                list == views(self.names@),
                forall|j: int| 0 <= j < i ==> list[j] != name@,
            decreases self.names.len() - i,
        {
            if same_text(self.names[i].as_str(), name) {
                assert(list[i as int] == name@);
                return true;
            }
            i = i + 1;
        }
        assert(!list.contains(name@));
        false
    }

    /// Put `name` into this set.
    pub fn insert(&mut self, name: String)
        ensures
            final(self)@ == old(self)@.insert(name@),
            old(self).distinct() ==> final(self).distinct(),
    {
        let ghost before = views(self.names@);
        if !self.contains(name.as_str()) {
            let ghost key = name@;
            self.names.push(name);
            proof {
                let after = views(self.names@);
                assert(after =~= before.push(key));
                assert forall|k: Seq<char>| before.to_set().insert(key).contains(k) implies
                    after.to_set().contains(k) by {
                    if before.contains(k) {
                        let j = choose|j: int| 0 <= j < before.len() && before[j] == k;
                        assert(after[j] == k);
                    } else {
                        assert(after[before.len() as int] == k);
                    }
                }
                assert forall|k: Seq<char>| after.to_set().contains(k) implies
                    before.to_set().insert(key).contains(k) by {
                    let j = choose|j: int| 0 <= j < after.len() && after[j] == k;
                    if j < before.len() {
                        assert(before[j] == k);
                    }
                }
                assert(after.to_set() =~= before.to_set().insert(key));
                assert(!before.contains(key));
            }
        } else {
            assert(self@.insert(name@) =~= self@);
        }
    }

    /// How many names are in this set.
    pub fn len(&self) -> (len: usize)
        requires
            self.distinct(),
        ensures
            len == self@.len(),
    {
        proof {
            views(self.names@).unique_seq_to_set();
        }
        self.names.len()
    }

    /// Whether no name is in this set.
    pub fn is_empty(&self) -> (empty: bool)
        ensures
            empty == (self@ == Set::<Seq<char>>::empty()),
    {
        proof {
            let list = views(self.names@);
            if list.len() == 0 {
                assert(self@ =~= Set::<Seq<char>>::empty());
            } else {
                assert(list.contains(list[0]));
                assert(self@.contains(list[0]));
            }
        }
        self.names.len() == 0
    }
}

} // verus!
