//! A table keyed by text, which keeps its keys in the order of their first insertion.
//!
//! The table stands where a hash map would: no key occurs twice, and a lookup
//! finds what was last stored under a key. Unlike a hash map it hands its keys
//! out in one fixed order, so what is done for each key is done in the same
//! order on every run.

use crate::text::{str_eq, texts};
use vstd::prelude::*;

verus! {

/// One key of a table and what is stored under it.
struct Entry<V> {
    key: String,
    value: V,
}

/// A map from text to values of `V`.
pub struct Table<V> {
    entries: Vec<Entry<V>>,
}

/// The keys of a sequence of entries, in its order.
spec fn entry_keys<V>(entries: Seq<Entry<V>>) -> Seq<Seq<char>> {
    Seq::new(entries.len(), |i: int| entries[i].key@)
}

/// `keys` without `key`, where `key` is among them; the other keys keep their
/// order.
pub open spec fn without(keys: Seq<Seq<char>>, key: Seq<char>) -> Seq<Seq<char>> {
    keys.remove(keys.index_of(key))
}

/// The map that a sequence of entries stands for.
spec fn entry_map<V>(entries: Seq<Entry<V>>) -> Map<Seq<char>, V> {
    Map::new(
        |k: Seq<char>| entry_keys(entries).contains(k),
        |k: Seq<char>| entries[entry_keys(entries).index_of(k)].value,
    )
}

/// In a sequence of entries without a repeated key, the entry at `i` is the one
/// that the map holds under its key.
proof fn lemma_entry_at<V>(entries: Seq<Entry<V>>, i: int)
    requires
        entry_keys(entries).no_duplicates(),
        0 <= i < entries.len(),
    ensures
        entry_map(entries).contains_key(entries[i].key@),
        entry_map(entries)[entries[i].key@] == entries[i].value,
        entry_keys(entries).index_of(entries[i].key@) == i,
{
    let keys = entry_keys(entries);
    assert(keys[i] == entries[i].key@);
    let j = keys.index_of(entries[i].key@);
    assert(0 <= j < keys.len() && keys[j] == entries[i].key@);
}

/// A key that heads no entry is no key of the map.
proof fn lemma_entry_absent<V>(entries: Seq<Entry<V>>, key: Seq<char>)
    requires
        forall|i: int| 0 <= i < entries.len() ==> entries[i].key@ != key,
    ensures
        !entry_map(entries).contains_key(key),
        !entry_keys(entries).contains(key),
{
    let keys = entry_keys(entries);
    if keys.contains(key) {
        let j = choose|j: int| 0 <= j < keys.len() && keys[j] == key;
        assert(entries[j].key@ == key);
    }
}

/// Replacing the value of one entry stores that value under the entry's key and
/// leaves the rest of the map, and the order of the keys, as they were.
proof fn lemma_entry_replaced<V>(before: Seq<Entry<V>>, after: Seq<Entry<V>>, i: int)
    requires
        entry_keys(before).no_duplicates(),
        0 <= i < before.len(),
        after.len() == before.len(),
        after[i].key@ == before[i].key@,
        forall|j: int| 0 <= j < before.len() && j != i ==> after[j] == before[j],
    ensures
        entry_keys(after) == entry_keys(before),
        entry_map(after) == entry_map(before).insert(after[i].key@, after[i].value),
{
    assert(entry_keys(after) =~= entry_keys(before));
    let key = after[i].key@;
    assert forall|q: Seq<char>| #[trigger]
        entry_map(before).insert(key, after[i].value).contains_key(q) implies entry_map(
        after,
    ).contains_key(q) && entry_map(after)[q] == entry_map(before).insert(key, after[i].value)[q] by {
        if q == key {
            lemma_entry_at(after, i);
        } else {
            let j = entry_keys(before).index_of(q);
            assert(entry_keys(before)[j] == q);
            lemma_entry_at(before, j);
            lemma_entry_at(after, j);
        }
    }
    lemma_entry_at(before, i);
    assert(entry_map(after) =~= entry_map(before).insert(key, after[i].value));
}

/// Appending an entry under a new key stores its value under that key and leaves
/// the rest of the map as it was.
proof fn lemma_entry_pushed<V>(before: Seq<Entry<V>>, entry: Entry<V>)
    requires
        entry_keys(before).no_duplicates(),
        !entry_keys(before).contains(entry.key@),
    ensures
        entry_keys(before.push(entry)) == entry_keys(before).push(entry.key@),
        entry_keys(before.push(entry)).no_duplicates(),
        entry_map(before.push(entry)) == entry_map(before).insert(entry.key@, entry.value),
{
    let after = before.push(entry);
    let n = before.len() as int;
    assert(entry_keys(after) =~= entry_keys(before).push(entry.key@));
    assert forall|a: int, b: int|
        0 <= a < after.len() && 0 <= b < after.len() && a != b implies entry_keys(after)[a]
        != entry_keys(after)[b] by {
        if a < n {
            assert(entry_keys(before)[a] == entry_keys(after)[a]);
        }
        if b < n {
            assert(entry_keys(before)[b] == entry_keys(after)[b]);
        }
    }
    assert forall|q: Seq<char>| #[trigger]
        entry_map(before).insert(entry.key@, entry.value).contains_key(q) implies entry_map(
        after,
    ).contains_key(q) && entry_map(after)[q] == entry_map(before).insert(
        entry.key@,
        entry.value,
    )[q] by {
        if q == entry.key@ {
            lemma_entry_at(after, n);
        } else {
            let j = entry_keys(before).index_of(q);
            assert(entry_keys(before)[j] == q);
            lemma_entry_at(before, j);
            lemma_entry_at(after, j);
        }
    }
    assert forall|q: Seq<char>| #[trigger] entry_map(after).contains_key(q) implies entry_map(
        before,
    ).insert(entry.key@, entry.value).contains_key(q) by {
        let j = entry_keys(after).index_of(q);
        assert(entry_keys(after)[j] == q);
        if j < n {
            assert(entry_keys(before)[j] == q);
        }
    }
    assert(entry_map(after) =~= entry_map(before).insert(entry.key@, entry.value));
}

/// Taking one entry out removes its key from the map and from the order of the
/// keys, and leaves the rest as it was.
proof fn lemma_entry_removed<V>(before: Seq<Entry<V>>, i: int)
    requires
        entry_keys(before).no_duplicates(),
        0 <= i < before.len(),
    ensures
        entry_keys(before.remove(i)) == entry_keys(before).remove(i),
        entry_keys(before.remove(i)).no_duplicates(),
        entry_map(before.remove(i)) == entry_map(before).remove(before[i].key@),
{
    let after = before.remove(i);
    let key = before[i].key@;
    assert(entry_keys(after) =~= entry_keys(before).remove(i));
    assert forall|a: int, b: int|
        0 <= a < after.len() && 0 <= b < after.len() && a != b implies entry_keys(after)[a]
        != entry_keys(after)[b] by {
        let a0 = if a < i { a } else { a + 1 };
        let b0 = if b < i { b } else { b + 1 };
        assert(entry_keys(after)[a] == entry_keys(before)[a0]);
        assert(entry_keys(after)[b] == entry_keys(before)[b0]);
    }
    assert forall|q: Seq<char>| #[trigger] entry_map(before).remove(key).contains_key(q) implies
        entry_map(after).contains_key(q) && entry_map(after)[q] == entry_map(before).remove(
        key,
    )[q] by {
        let j = entry_keys(before).index_of(q);
        assert(entry_keys(before)[j] == q);
        lemma_entry_at(before, j);
        let j1 = if j < i { j } else { j - 1 };
        assert(after[j1] == before[j]);
        lemma_entry_at(after, j1);
    }
    assert forall|q: Seq<char>| #[trigger] entry_map(after).contains_key(q) implies entry_map(
        before,
    ).remove(key).contains_key(q) by {
        assert(entry_keys(after).contains(q));
        let j = entry_keys(after).index_of(q);
        assert(0 <= j < after.len() && entry_keys(after)[j] == q);
        let j0 = if j < i { j } else { j + 1 };
        assert(entry_keys(before)[j0] == q);
        assert(entry_keys(before)[i] == key);
        assert(entry_keys(before).contains(q));
    }
    assert(entry_map(after) =~= entry_map(before).remove(key));
}

impl<V> View for Table<V> {
    type V = Map<Seq<char>, V>;

    closed spec fn view(&self) -> Map<Seq<char>, V> {
        entry_map(self.entries@)
    }
}

impl<V> Table<V> {
    /// The keys in the order in which they were first inserted.
    pub closed spec fn keys(&self) -> Seq<Seq<char>> {
        entry_keys(self.entries@)
    }

    #[verifier::type_invariant]
    spec fn distinct_keys(&self) -> bool {
        entry_keys(self.entries@).no_duplicates()
    }

    /// The keys in their order are the keys of the map.
    pub proof fn lemma_keys_are_domain(&self)
        ensures
            forall|key: Seq<char>| self.keys().contains(key) <==> self@.contains_key(key),
    {
    }

    /// A table without a key.
    pub fn new() -> (table: Self)
        ensures
            table@ == Map::<Seq<char>, V>::empty(),
            table.keys() == Seq::<Seq<char>>::empty(),
    {
        let table = Table { entries: Vec::new() };
        assert(table@ =~= Map::<Seq<char>, V>::empty());
        assert(table.keys() =~= Seq::<Seq<char>>::empty());
        table
    }

    /// The index of the entry that holds `key`.
    fn position(&self, key: &str) -> (found: Option<usize>)
        ensures
            entry_keys(self.entries@).no_duplicates(),
            match found {
                Some(i) => i < self.entries@.len() && self.entries@[i as int].key@ == key@
                    && self@.contains_key(key@) && self@[key@] == self.entries@[i as int].value,
                None => !self@.contains_key(key@) && !self.keys().contains(key@),
            },
    {
        proof {
            use_type_invariant(&*self);
        }
        let mut i: usize = 0;
        while i < self.entries.len()
            invariant
                i <= self.entries@.len(),
                forall|j: int| 0 <= j < i ==> self.entries@[j].key@ != key@,
                entry_keys(self.entries@).no_duplicates(),
            decreases self.entries@.len() - i,
        {
            if str_eq(self.entries[i].key.as_str(), key) {
                proof {
                    lemma_entry_at(self.entries@, i as int);
                }
                return Some(i);
            }
            i += 1;
        }
        proof {
            lemma_entry_absent(self.entries@, key@);
        }
        None
    }

    /// Stores `value` under `key` and hands back what was stored there before. A
    /// key that is new comes last in the order of the keys; one that was there
    /// keeps its place.
    pub fn insert(&mut self, key: String, value: V) -> (previous: Option<V>)
        ensures
            final(self)@ == old(self)@.insert(key@, value),
            old(self)@.contains_key(key@) ==> previous == Some(old(self)@[key@]) && final(self).keys() == old(self).keys(),
            !old(self)@.contains_key(key@) ==> previous is None && final(self).keys() == old(self).keys().push(key@),
    {
        let found = self.position(key.as_str());
        let mut entries: Vec<Entry<V>> = Vec::new();
        std::mem::swap(&mut entries, &mut self.entries);
        let ghost before = entries@;
        let previous = match found {
            Some(i) => {
                let replaced = entries.remove(i);
                entries.insert(i, Entry { key, value });
                proof {
                    lemma_entry_replaced(before, entries@, i as int);
                }
                Some(replaced.value)
            },
            None => {
                let entry = Entry { key, value };
                proof {
                    lemma_entry_pushed(before, entry);
                }
                entries.push(entry);
                None
            },
        };
        self.entries = entries;
        previous
    }

    /// Takes out what is stored under `key` and hands it back.
    pub fn remove(&mut self, key: &str) -> (removed: Option<V>)
        ensures
            final(self)@ == old(self)@.remove(key@),
            old(self)@.contains_key(key@) ==> removed == Some(old(self)@[key@]) && final(self).keys() == without(old(self).keys(), key@),
            !old(self)@.contains_key(key@) ==> removed is None && final(self).keys() == old(self).keys(),
    {
        let found = self.position(key);
        match found {
            Some(i) => {
                let mut entries: Vec<Entry<V>> = Vec::new();
                std::mem::swap(&mut entries, &mut self.entries);
                proof {
                    lemma_entry_removed(entries@, i as int);
                    lemma_entry_at(entries@, i as int);
                }
                let entry = entries.remove(i);
                self.entries = entries;
                Some(entry.value)
            },
            None => {
                assert(self@.remove(key@) =~= self@);
                None
            },
        }
    }

    /// Empties the table and hands back the keys that it held, in their order.
    /// What was stored under them is dropped.
    pub fn clear(&mut self) -> (keys: Vec<String>)
        ensures
            final(self)@ == Map::<Seq<char>, V>::empty(),
            final(self).keys() == Seq::<Seq<char>>::empty(),
            texts(keys@) == old(self).keys(),
            old(self).keys().no_duplicates(),
            old(self).keys().to_set() == old(self)@.dom(),
    {
        let keys = self.key_list();
        self.entries = Vec::new();
        assert(self@ =~= Map::<Seq<char>, V>::empty());
        assert(self.keys() =~= Seq::<Seq<char>>::empty());
        keys
    }

    /// The keys in their order. No key occurs twice, and the keys are those of
    /// the map.
    pub fn key_list(&self) -> (keys: Vec<String>)
        ensures
            texts(keys@) == self.keys(),
            self.keys().no_duplicates(),
            self.keys().to_set() == self@.dom(),
    {
        proof {
            use_type_invariant(&*self);
            assert(self.keys().to_set() =~= self@.dom());
        }
        let mut keys: Vec<String> = Vec::new();
        let mut i: usize = 0;
        while i < self.entries.len()
            invariant
                i <= self.entries@.len(),
                keys@.len() == i,
                forall|j: int| 0 <= j < i ==> keys@[j]@ == self.entries@[j].key@,
            decreases self.entries@.len() - i,
        {
            keys.push(self.entries[i].key.clone());
            i += 1;
        }
        assert(texts(keys@) =~= self.keys());
        keys
    }

    /// The number of keys.
    pub fn len(&self) -> (n: usize)
        ensures
            n == self.keys().len(),
            n == self@.len(),
    {
        proof {
            use_type_invariant(&*self);
            assert(self.keys().to_set() =~= self@.dom());
            self.keys().unique_seq_to_set();
        }
        self.entries.len()
    }

    /// Whether something is stored under `key`.
    pub fn contains_key(&self, key: &str) -> (present: bool)
        ensures
            present == self@.contains_key(key@),
    {
        self.position(key).is_some()
    }

    /// What is stored under `key`.
    pub fn get(&self, key: &str) -> (value: Option<&V>)
        ensures
            match value {
                Some(v) => self@.contains_key(key@) && *v == self@[key@],
                None => !self@.contains_key(key@),
            },
    {
        match self.position(key) {
            Some(i) => Some(&self.entries[i].value),
            None => None,
        }
    }
}

} // verus!
