//! Tables keyed by names.

use vstd::prelude::*;
use vstd::string::*;

use crate::text;

verus! {

/// What a table can be keyed by: values with a name, equal when their names
/// are.
pub trait Key: Sized {
    type Name;

    spec fn key_name(&self) -> Self::Name;

    fn same_key(&self, other: &Self) -> (r: bool)
        ensures
            r == (self.key_name() == other.key_name()),
    ;
}

impl Key for String {
    type Name = Seq<char>;

    open spec fn key_name(&self) -> Seq<char> {
        self@
    }

    fn same_key(&self, other: &Self) -> (r: bool) {
        text::str_eq(self.as_str(), other.as_str())
    }
}

/// Whether one of the entries has that key.
pub open spec fn has_key<K: Key, V>(entries: Seq<(K, V)>, key: K::Name) -> bool {
    exists|i: int| 0 <= i < entries.len() && (#[trigger] entries[i]).0.key_name() == key
}

/// An index of an entry with that key.
pub open spec fn key_index<K: Key, V>(entries: Seq<(K, V)>, key: K::Name) -> int {
    choose|i: int| 0 <= i < entries.len() && (#[trigger] entries[i]).0.key_name() == key
}

/// No key occurs twice.
pub open spec fn distinct<K: Key, V>(entries: Seq<(K, V)>) -> bool {
    forall|i: int, j: int|
        0 <= i < j < entries.len() ==> (#[trigger] entries[i]).0.key_name() != (#[trigger] entries[j]).0.key_name()
}

/// The entries as a map.
pub open spec fn as_map<K: Key, V>(entries: Seq<(K, V)>) -> Map<K::Name, V> {
    Map::new(
        |key: K::Name| has_key(entries, key),
        |key: K::Name| entries[key_index(entries, key)].1,
    )
}

proof fn lemma_entry<K: Key, V>(entries: Seq<(K, V)>, i: int)
    requires
        distinct(entries),
        0 <= i < entries.len(),
    ensures
        as_map(entries).dom().contains(entries[i].0.key_name()),
        as_map(entries)[entries[i].0.key_name()] == entries[i].1,
{
    let key = entries[i].0.key_name();
    assert(has_key(entries, key));
    let k = key_index(entries, key);
    assert(entries[k].0.key_name() == entries[i].0.key_name());
}

/// A table from keys to values.
pub struct Table<K: Key, V> {
    entries: Vec<(K, V)>,
}

impl<K: Key, V> View for Table<K, V> {
    type V = Map<K::Name, V>;

    closed spec fn view(&self) -> Map<K::Name, V> {
        as_map(self.entries@)
    }
}

impl<K: Key, V> Table<K, V> {
    #[verifier::type_invariant]
    spec fn well_formed(self) -> bool {
        distinct(self.entries@)
    }

    /// An empty table.
    pub fn new() -> (r: Self)
        ensures
            r@ == Map::<K::Name, V>::empty(),
    {
        let r = Table { entries: Vec::new() };
        assert(r@ =~= Map::<K::Name, V>::empty());
        r
    }

    /// Whether the table has no entries.
    pub fn is_empty(&self) -> (r: bool)
        ensures
            r == (self@ == Map::<K::Name, V>::empty()),
    {
        proof {
            use_type_invariant(self);
            if self.entries@.len() > 0 {
                lemma_entry(self.entries@, 0);
            } else {
                assert(self@ =~= Map::<K::Name, V>::empty());
            }
        }
        self.entries.len() == 0
    }

    /// The index of a key, the number of entries where there is none.
    fn find(&self, key: &K) -> (r: usize)
        ensures
            r <= self.entries@.len(),
            r < self.entries@.len() ==> self.entries@[r as int].0.key_name() == key.key_name(),
            r == self.entries@.len() ==> !has_key(self.entries@, key.key_name()),
    {
        let mut i: usize = 0;
        while i < self.entries.len()
            invariant
                i <= self.entries@.len(),
                forall|j: int| 0 <= j < i ==> (#[trigger] self.entries@[j]).0.key_name() != key.key_name(),
            decreases self.entries@.len() - i,
        {
            if self.entries[i].0.same_key(key) {
                return i;
            }
            i = i + 1;
        }
        i
    }

    /// The value of a key.
    pub fn get(&self, key: &K) -> (r: Option<&V>)
        ensures
            match r {
                Some(v) => self@.dom().contains(key.key_name()) && *v == self@[key.key_name()],
                None => !self@.dom().contains(key.key_name()),
            },
    {
        proof {
            use_type_invariant(self);
        }
        let i = self.find(key);
        if i < self.entries.len() {
            proof {
                lemma_entry(self.entries@, i as int);
            }
            Some(&self.entries[i].1)
        } else {
            None
        }
    }

    /// Sets the value of a key.
    pub fn insert(&mut self, key: K, value: V)
        ensures
            final(self)@ == old(self)@.insert(key.key_name(), value),
    {
        proof {
            use_type_invariant(&*self);
        }
        let i = self.find(&key);
        let ghost before = self.entries@;
        let mut entries: Vec<(K, V)> = Vec::new();
        std::mem::swap(&mut entries, &mut self.entries);
        if i < entries.len() {
            entries.remove(i);
        }
        let ghost middle = entries@;
        entries.push((key, value));
        let ghost after = entries@;
        proof {
            lemma_replaced(before, i as int, middle, after, key.key_name(), value);
        }
        self.entries = entries;
    }

    /// Takes a key out, with its value.
    pub fn remove(&mut self, key: &K) -> (r: Option<V>)
        ensures
            final(self)@ == old(self)@.remove(key.key_name()),
            match r {
                Some(v) => old(self)@.dom().contains(key.key_name()) && v == old(self)@[key.key_name()],
                None => !old(self)@.dom().contains(key.key_name()),
            },
    {
        proof {
            use_type_invariant(&*self);
        }
        let i = self.find(key);
        let ghost before = self.entries@;
        if i < self.entries.len() {
            let mut entries: Vec<(K, V)> = Vec::new();
            std::mem::swap(&mut entries, &mut self.entries);
            let entry = entries.remove(i);
            proof {
                lemma_entry(before, i as int);
                lemma_removed(before, i as int);
            }
            self.entries = entries;
            Some(entry.1)
        } else {
            assert(as_map(before).remove(key.key_name()) =~= as_map(before));
            None
        }
    }
}

proof fn lemma_removed<K: Key, V>(before: Seq<(K, V)>, i: int)
    requires
        distinct(before),
        0 <= i < before.len(),
    ensures
        distinct(before.remove(i)),
        as_map(before.remove(i)) == as_map(before).remove(before[i].0.key_name()),
{
    let after = before.remove(i);
    let key = before[i].0.key_name();
    assert forall|a: int, b: int| 0 <= a < b < after.len() implies (#[trigger] after[a]).0.key_name() != (
    #[trigger] after[b]).0.key_name() by {
        let x = if a < i { a } else { a + 1 };
        let y = if b < i { b } else { b + 1 };
        assert(after[a] == before[x]);
        assert(after[b] == before[y]);
    }
    assert forall|k: K::Name| k != key && #[trigger] has_key(before, k) implies has_key(after, k)
        && as_map(after)[k] == as_map(before)[k] by {
        let x = key_index(before, k);
        let a = if x < i { x } else { x - 1 };
        assert(after[a] == before[x]);
        lemma_entry(before, x);
        lemma_entry(after, a);
    }
    assert forall|k: K::Name| #[trigger] has_key(after, k) implies k != key && has_key(
        before,
        k,
    ) by {
        let a = key_index(after, k);
        let x = if a < i { a } else { a + 1 };
        assert(after[a] == before[x]);
        assert(before[x].0.key_name() != before[i].0.key_name());
    }
    assert(as_map(after) =~= as_map(before).remove(key));
}

proof fn lemma_replaced<K: Key, V>(
    before: Seq<(K, V)>,
    i: int,
    middle: Seq<(K, V)>,
    after: Seq<(K, V)>,
    key: K::Name,
    value: V,
)
    requires
        distinct(before),
        0 <= i <= before.len(),
        i < before.len() ==> before[i].0.key_name() == key && middle == before.remove(i),
        i == before.len() ==> !has_key(before, key) && middle == before,
        after.len() == middle.len() + 1,
        forall|j: int| 0 <= j < middle.len() ==> after[j] == middle[j],
        after[middle.len() as int].0.key_name() == key,
        after[middle.len() as int].1 == value,
    ensures
        distinct(after),
        as_map(after) == as_map(before).insert(key, value),
{
    if i < before.len() {
        lemma_removed(before, i);
    }
    assert(!as_map(middle).dom().contains(key));
    assert(!has_key(middle, key));
    let last = middle.len() as int;
    assert forall|a: int, b: int| 0 <= a < b < after.len() implies (#[trigger] after[a]).0.key_name() != (
    #[trigger] after[b]).0.key_name() by {
        assert(after[a] == middle[a]);
        if b < last {
            assert(after[b] == middle[b]);
        }
    }
    lemma_entry(after, last);
    assert forall|k: K::Name| k != key && #[trigger] has_key(middle, k) implies has_key(after, k)
        && as_map(after)[k] == as_map(middle)[k] by {
        let x = key_index(middle, k);
        assert(after[x] == middle[x]);
        lemma_entry(middle, x);
        lemma_entry(after, x);
    }
    assert forall|k: K::Name| k != key && #[trigger] has_key(after, k) implies has_key(
        middle,
        k,
    ) by {
        let a = key_index(after, k);
        assert(after[a] == middle[a]);
    }
    assert(as_map(after) =~= as_map(middle).insert(key, value));
    assert(as_map(middle).insert(key, value) =~= as_map(before).insert(key, value));
}

} // verus!
