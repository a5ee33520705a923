//! Sorted lists without repetition.

use crate::text::{
    place_text, text_before, text_order_is_irreflexive, text_order_is_total, text_order_is_transitive,
    views, Placement,
};
use vstd::prelude::*;

verus! {

/// A value with a place in a strict total order.
pub trait Ranked: Sized {
    /// What the order looks at.
    type Key;

    spec fn key(&self) -> Self::Key;

    spec fn before(a: Self::Key, b: Self::Key) -> bool;

    proof fn irreflexive(a: Self::Key)
        ensures
            !Self::before(a, a),
    ;

    proof fn transitive(a: Self::Key, b: Self::Key, c: Self::Key)
        requires
            Self::before(a, b),
            Self::before(b, c),
        ensures
            Self::before(a, c),
    ;

    proof fn total(a: Self::Key, b: Self::Key)
        ensures
            a == b || Self::before(a, b) || Self::before(b, a),
    ;

    /// Where `self` stands relative to `other`.
    fn place(&self, other: &Self) -> (placement: Placement)
        ensures
            placement is Before <==> Self::before(self.key(), other.key()),
            placement is Same <==> self.key() == other.key(),
            placement is After <==> Self::before(other.key(), self.key()),
    ;
}

impl Ranked for String {
    type Key = Seq<char>;

    open spec fn key(&self) -> Seq<char> {
        self@
    }

    open spec fn before(a: Seq<char>, b: Seq<char>) -> bool {
        text_before(a, b)
    }

    proof fn irreflexive(a: Seq<char>) {
        text_order_is_irreflexive(a);
    }

    proof fn transitive(a: Seq<char>, b: Seq<char>, c: Seq<char>) {
        text_order_is_transitive(a, b, c);
    }

    proof fn total(a: Seq<char>, b: Seq<char>) {
        text_order_is_total(a, b);
    }

    fn place(&self, other: &String) -> (placement: Placement) {
        place_text(self.as_str(), other.as_str())
    }
}

/// The order of pairs: by the first string, then by the second.
pub open spec fn pair_before(a: (Seq<char>, Seq<char>), b: (Seq<char>, Seq<char>)) -> bool {
    text_before(a.0, b.0) || (a.0 == b.0 && text_before(a.1, b.1))
}

impl Ranked for (String, String) {
    type Key = (Seq<char>, Seq<char>);

    open spec fn key(&self) -> (Seq<char>, Seq<char>) {
        (self.0@, self.1@)
    }

    open spec fn before(a: (Seq<char>, Seq<char>), b: (Seq<char>, Seq<char>)) -> bool {
        pair_before(a, b)
    }

    proof fn irreflexive(a: (Seq<char>, Seq<char>)) {
        text_order_is_irreflexive(a.0);
        text_order_is_irreflexive(a.1);
    }

    proof fn transitive(
        a: (Seq<char>, Seq<char>),
        b: (Seq<char>, Seq<char>),
        c: (Seq<char>, Seq<char>),
    ) {
        if text_before(a.0, b.0) && text_before(b.0, c.0) {
            text_order_is_transitive(a.0, b.0, c.0);
        } else if a.0 == b.0 && b.0 == c.0 {
            text_order_is_transitive(a.1, b.1, c.1);
        }
    }

    proof fn total(a: (Seq<char>, Seq<char>), b: (Seq<char>, Seq<char>)) {
        text_order_is_total(a.0, b.0);
        text_order_is_total(a.1, b.1);
    }

    fn place(&self, other: &(String, String)) -> (placement: Placement) {
        proof {
            text_order_is_irreflexive(self.0@);
            text_order_is_irreflexive(self.1@);
            if text_before(self.0@, other.0@) && text_before(other.0@, self.0@) {
                text_order_is_transitive(self.0@, other.0@, self.0@);
            }
        }
        match place_text(self.0.as_str(), other.0.as_str()) {
            Placement::Same => place_text(self.1.as_str(), other.1.as_str()),
            outer => outer,
        }
    }
}

/// The keys of a list, in order.
pub open spec fn keys<T: Ranked>(list: Seq<T>) -> Seq<T::Key> {
    list.map_values(|item: T| item.key())
}

/// Whether each key comes before every key that follows it.
pub open spec fn strictly_sorted<T: Ranked>(list: Seq<T::Key>) -> bool {
    forall|i: int, j: int|
        0 <= i < j < list.len() ==> T::before(#[trigger] list[i], #[trigger] list[j])
}

/// Whether `sorted` holds the members of `list`, each once, in ascending order.
pub open spec fn is_sorted_set_of<T: Ranked>(sorted: Seq<T::Key>, list: Seq<T::Key>) -> bool {
    strictly_sorted::<T>(sorted) && sorted.to_set() =~= list.to_set()
}

/// The members of `list`, each once, in ascending order.
pub open spec fn sorted_set<T: Ranked>(list: Seq<T::Key>) -> Seq<T::Key> {
    choose|sorted: Seq<T::Key>| is_sorted_set_of::<T>(sorted, list)
}

/// The strings of `list`, each once, in ascending order.
pub open spec fn sorted_texts(list: Seq<Seq<char>>) -> Seq<Seq<char>> {
    sorted_set::<String>(list)
}

proof fn lemma_insert_sorted<T: Ranked>(sorted: Seq<T::Key>, key: T::Key, at: int)
    requires
        strictly_sorted::<T>(sorted),
        0 <= at <= sorted.len(),
        forall|i: int| 0 <= i < at ==> T::before(#[trigger] sorted[i], key),
        forall|i: int| at <= i < sorted.len() ==> T::before(key, #[trigger] sorted[i]),
    ensures
        strictly_sorted::<T>(sorted.insert(at, key)),
        sorted.insert(at, key).to_set() =~= sorted.to_set().insert(key),
{
    let grown = sorted.insert(at, key);
    assert forall|i: int, j: int| 0 <= i < j < grown.len() implies T::before(
        #[trigger] grown[i],
        #[trigger] grown[j],
    ) by {
        let x = if i < at { i } else { i - 1 };
        let y = if j < at { j } else { j - 1 };
        if i != at {
            assert(grown[i] == sorted[x]);
        }
        if j != at {
            assert(grown[j] == sorted[y]);
        }
    }
    assert forall|k: T::Key| grown.to_set().contains(k) implies sorted.to_set().insert(
        key,
    ).contains(k) by {
        let i = choose|i: int| 0 <= i < grown.len() && grown[i] == k;
        if i < at {
            assert(sorted[i] == k);
        } else if i > at {
            assert(sorted[i - 1] == k);
        }
    }
    assert forall|k: T::Key| sorted.to_set().insert(key).contains(k) implies grown.to_set().contains(
        k,
    ) by {
        if k == key {
            assert(grown[at] == k);
        } else {
            let i = choose|i: int| 0 <= i < sorted.len() && sorted[i] == k;
            if i < at {
                assert(grown[i] == k);
            } else {
                assert(grown[i + 1] == k);
            }
        }
    }
}

proof fn lemma_insert_exists<T: Ranked>(sorted: Seq<T::Key>, key: T::Key)
    requires
        strictly_sorted::<T>(sorted),
    ensures
        exists|grown: Seq<T::Key>| #[trigger]
            strictly_sorted::<T>(grown) && grown.to_set() =~= sorted.to_set().insert(key),
{
    if sorted.contains(key) {
        assert(sorted.to_set().insert(key) =~= sorted.to_set());
    } else {
        let at = lemma_find_place::<T>(sorted, key, sorted.len() as int);
        lemma_insert_sorted::<T>(sorted, key, at);
        assert(strictly_sorted::<T>(sorted.insert(at, key)));
    }
}

proof fn lemma_find_place<T: Ranked>(sorted: Seq<T::Key>, key: T::Key, upto: int) -> (at: int)
    requires
        strictly_sorted::<T>(sorted),
        !sorted.contains(key),
        0 <= upto <= sorted.len(),
        forall|i: int| upto <= i < sorted.len() ==> T::before(key, #[trigger] sorted[i]),
    ensures
        0 <= at <= sorted.len(),
        forall|i: int| 0 <= i < at ==> T::before(#[trigger] sorted[i], key),
        forall|i: int| at <= i < sorted.len() ==> T::before(key, #[trigger] sorted[i]),
    decreases upto,
{
    if upto == 0 {
        0
    } else {
        let last = sorted[upto - 1];
        T::total(last, key);
        assert(sorted.contains(last));
        if T::before(last, key) {
            assert forall|i: int| 0 <= i < upto implies T::before(#[trigger] sorted[i], key) by {
                if i < upto - 1 {
                    T::transitive(sorted[i], last, key);
                }
            }
            upto
        } else {
            lemma_find_place::<T>(sorted, key, upto - 1)
        }
    }
}

proof fn lemma_sorted_set_exists<T: Ranked>(list: Seq<T::Key>)
    ensures
        exists|sorted: Seq<T::Key>| is_sorted_set_of::<T>(sorted, list),
    decreases list.len(),
{
    if list.len() == 0 {
        assert(is_sorted_set_of::<T>(list, list));
    } else {
        lemma_sorted_set_exists::<T>(list.drop_last());
        let before = sorted_set::<T>(list.drop_last());
        lemma_insert_exists::<T>(before, list.last());
        let grown = choose|grown: Seq<T::Key>| #[trigger]
            strictly_sorted::<T>(grown) && grown.to_set() =~= before.to_set().insert(list.last());
        lemma_set_of_push(list.drop_last(), list.last());
        assert(list.drop_last().push(list.last()) =~= list);
        assert(is_sorted_set_of::<T>(grown, list));
    }
}

proof fn lemma_set_of_push<K>(list: Seq<K>, item: K)
    ensures
        list.push(item).to_set() =~= list.to_set().insert(item),
{
    let grown = list.push(item);
    assert forall|k: K| list.to_set().insert(item).contains(k) implies grown.to_set().contains(
        k,
    ) by {
        if k == item {
            assert(grown[list.len() as int] == k);
        } else {
            let i = choose|i: int| 0 <= i < list.len() && list[i] == k;
            assert(grown[i] == k);
        }
    }
    assert forall|k: K| grown.to_set().contains(k) implies list.to_set().insert(item).contains(
        k,
    ) by {
        let i = choose|i: int| 0 <= i < grown.len() && grown[i] == k;
        if i < list.len() {
            assert(list[i] == k);
        }
    }
}

/// A sorted list without repetition is determined by its members: two such lists with the
/// same members are the same list.
pub proof fn sorted_lists_with_equal_members_are_equal<T: Ranked>(a: Seq<T::Key>, b: Seq<T::Key>)
    requires
        strictly_sorted::<T>(a),
        strictly_sorted::<T>(b),
        a.to_set() == b.to_set(),
    ensures
        a == b,
    decreases a.len(),
{
    if a.len() == 0 {
        if b.len() > 0 {
            assert(b.to_set().contains(b[0]));
            assert(a.to_set().contains(b[0]));
        }
        assert(a =~= b);
    } else {
        assert(a.to_set().contains(a.last()));
        assert(b.to_set().contains(a.last()));
        let j = choose|j: int| 0 <= j < b.len() && b[j] == a.last();
        assert(b.to_set().contains(b.last()));
        assert(a.to_set().contains(b.last()));
        let i = choose|i: int| 0 <= i < a.len() && a[i] == b.last();
        assert(a.last() == b.last()) by {
            if a.last() != b.last() {
                assert(T::before(a[i], a[a.len() - 1]));
                assert(T::before(b[j], b[b.len() - 1]));
                T::transitive(a.last(), b.last(), a.last());
                T::irreflexive(a.last());
            }
        }
        let x = a.drop_last();
        let y = b.drop_last();
        lemma_drop_last_members::<T>(a);
        lemma_drop_last_members::<T>(b);
        assert(x.to_set() =~= y.to_set());
        sorted_lists_with_equal_members_are_equal::<T>(x, y);
        assert(a =~= x.push(a.last()));
        assert(b =~= y.push(b.last()));
    }
}

proof fn lemma_drop_last_members<T: Ranked>(a: Seq<T::Key>)
    requires
        strictly_sorted::<T>(a),
        a.len() > 0,
    ensures
        strictly_sorted::<T>(a.drop_last()),
        a.drop_last().to_set() =~= a.to_set().remove(a.last()),
{
    let x = a.drop_last();
    assert forall|k: T::Key| x.to_set().contains(k) implies a.to_set().remove(a.last()).contains(
        k,
    ) by {
        let i = choose|i: int| 0 <= i < x.len() && x[i] == k;
        assert(a[i] == k);
        assert(T::before(a[i], a[a.len() - 1]));
        T::irreflexive(k);
    }
    assert forall|k: T::Key| a.to_set().remove(a.last()).contains(k) implies x.to_set().contains(
        k,
    ) by {
        let i = choose|i: int| 0 <= i < a.len() && a[i] == k;
        assert(x[i] == k);
    }
}

/// The sorted list of a list's members is strictly ascending and has exactly those members.
pub proof fn sorted_set_holds_each_member_once<T: Ranked>(list: Seq<T::Key>)
    ensures
        strictly_sorted::<T>(sorted_set::<T>(list)),
        sorted_set::<T>(list).to_set() == list.to_set(),
        sorted_set::<T>(list).no_duplicates(),
{
    lemma_sorted_set_exists::<T>(list);
    let sorted = sorted_set::<T>(list);
    assert forall|i: int, j: int|
        0 <= i < sorted.len() && 0 <= j < sorted.len() && i != j implies sorted[i] != sorted[j] by {
        T::irreflexive(sorted[i]);
        if i < j {
            assert(T::before(sorted[i], sorted[j]));
        } else {
            assert(T::before(sorted[j], sorted[i]));
        }
    }
}

proof fn lemma_is_sorted_set<T: Ranked>(sorted: Seq<T::Key>, list: Seq<T::Key>)
    requires
        is_sorted_set_of::<T>(sorted, list),
    ensures
        sorted == sorted_set::<T>(list),
{
    sorted_set_holds_each_member_once::<T>(list);
    sorted_lists_with_equal_members_are_equal::<T>(sorted, sorted_set::<T>(list));
}

/// Add `item` to a sorted list without repetition, unless it is there already.
pub(crate) fn insert_sorted<T: Ranked>(list: &mut Vec<T>, item: T, members: Ghost<Seq<T::Key>>)
    requires
        keys(old(list)@) == sorted_set::<T>(members@),
    ensures
        keys(final(list)@) == sorted_set::<T>(members@.push(item.key())),
{
    let ghost before = list@;
    let ghost was = keys(before);
    let ghost key = item.key();
    proof {
        sorted_set_holds_each_member_once::<T>(members@);
        lemma_set_of_push(members@, key);
    }
    let mut at: usize = 0;
    while at < list.len()
        invariant
            at <= list.len(),
            list@ == before,
            was == keys(before),
            key == item.key(),
            strictly_sorted::<T>(was),
            was.to_set() == members@.to_set(),
            members@.push(key).to_set() == members@.to_set().insert(key),
            forall|i: int| 0 <= i < at ==> T::before(#[trigger] was[i], key),
        decreases list.len() - at,
    {
        let placement = list[at].place(&item);
        assert(was[at as int] == list@[at as int].key());
        match placement {
            Placement::Before => {
                at = at + 1;
            },
            Placement::Same => {
                proof {
                    assert(was.contains(key));
                    assert(was.to_set().insert(key) =~= was.to_set());
                    lemma_is_sorted_set::<T>(was, members@.push(key));
                }
                return ;
            },
            Placement::After => {
                proof {
                    assert forall|i: int| at <= i < was.len() implies T::before(
                        key,
                        #[trigger] was[i],
                    ) by {
                        if i > at {
                            assert(T::before(was[at as int], was[i]));
                            T::transitive(key, was[at as int], was[i]);
                        }
                    }
                    lemma_insert_sorted::<T>(was, key, at as int);
                }
                list.insert(at, item);
                proof {
                    assert(keys(list@) =~= was.insert(at as int, key));
                    lemma_is_sorted_set::<T>(keys(list@), members@.push(key));
                }
                return ;
            },
        }
    }
    proof {
        lemma_insert_sorted::<T>(was, key, at as int);
    }
    list.push(item);
    proof {
        assert(keys(list@) =~= was.insert(at as int, key));
        lemma_is_sorted_set::<T>(keys(list@), members@.push(key));
    }
}

/// The strings of `values`, each once, in ascending order.
pub fn sorted_unique(values: Vec<String>) -> (sorted: Vec<String>)
    ensures
        views(sorted@) == sorted_texts(views(values@)),
{
    let mut sorted: Vec<String> = Vec::new();
    let mut i: usize = 0;
    let ghost all = views(values@);
    proof {
        lemma_sorted_set_of_none::<String>();
        assert(all.take(0) =~= Seq::<Seq<char>>::empty());
        assert(keys(sorted@) =~= Seq::<Seq<char>>::empty());
    }
    while i < values.len()
        invariant
            i <= values.len(),
            all == views(values@),
            keys(sorted@) == sorted_texts(all.take(i as int)),
        decreases values.len() - i,
    {
        let item = values[i].clone();
        insert_sorted(&mut sorted, item, Ghost(all.take(i as int)));
        assert(all.take(i + 1) =~= all.take(i as int).push(values@[i as int]@));
        i = i + 1;
    }
    assert(all.take(all.len() as int) =~= all);
    assert(keys(sorted@) =~= views(sorted@));
    sorted
}

/// The sorted list of no members is empty.
pub proof fn lemma_sorted_set_of_none<T: Ranked>()
    ensures
        sorted_set::<T>(Seq::<T::Key>::empty()) == Seq::<T::Key>::empty(),
{
    let none = Seq::<T::Key>::empty();
    assert(is_sorted_set_of::<T>(none, none));
    lemma_is_sorted_set::<T>(none, none);
}

/// Pairs with one first string are ordered by the second; else the first strings decide.
pub proof fn the_first_strings_decide_unless_equal(
    one: Seq<char>,
    other: Seq<char>,
    a: Seq<char>,
    b: Seq<char>,
)
    ensures
        pair_before((one, a), (one, b)) <==> text_before(a, b),
        one != other ==> (pair_before((one, a), (other, b)) <==> text_before(one, other)),
{
    text_order_is_irreflexive(one);
}

} // verus!
