//! A small map keyed by strings, kept as a vector of entries with distinct keys.
use vstd::prelude::*;

use crate::text::str_eq;

verus! {

/// Entries keyed by strings; no key occurs twice.
pub struct KeyedStore<V> {
    entries: Vec<(String, V)>,
}

/// The keys of a sequence of entries, in order.
pub open spec fn entry_keys<V>(entries: Seq<(String, V)>) -> Seq<Seq<char>> {
    entries.map_values(|e: (String, V)| e.0@)
}

/// The map that a sequence of entries with distinct keys stands for.
pub open spec fn entries_map<V>(entries: Seq<(String, V)>) -> Map<Seq<char>, V> {
    Map::new(
        |k: Seq<char>| entry_keys(entries).contains(k),
        |k: Seq<char>| entries[entry_keys(entries).index_of(k)].1,
    )
}

/// What `key` holds in a store whose contents are `m`: its value, or nothing.
pub open spec fn stored<V>(m: Map<Seq<char>, V>, key: Seq<char>) -> Option<V> {
    if m.dom().contains(key) {
        Some(m[key])
    } else {
        None
    }
}

/// In a sequence without duplicates, removing the value found at `i` removes position `i`.
proof fn lemma_remove_value_at(keys: Seq<Seq<char>>, i: int)
    requires
        keys.no_duplicates(),
        0 <= i < keys.len(),
    ensures
        keys.remove_value(keys[i]) == keys.remove(i),
{
    keys.index_of_first_ensures(keys[i]);
}

/// Removing a value that does not occur changes nothing.
proof fn lemma_remove_value_absent(keys: Seq<Seq<char>>, k: Seq<char>)
    requires
        !keys.contains(k),
    ensures
        keys.remove_value(k) == keys,
{
    keys.index_of_first_ensures(k);
}

proof fn lemma_index_of_unique(keys: Seq<Seq<char>>, i: int)
    requires
        keys.no_duplicates(),
        0 <= i < keys.len(),
    ensures
        keys.index_of(keys[i]) == i,
{
    assert(keys.contains(keys[i]));
}

proof fn lemma_map_lookup<V>(entries: Seq<(String, V)>, i: int)
    requires
        entry_keys(entries).no_duplicates(),
        0 <= i < entries.len(),
    ensures
        entries_map(entries).dom().contains(entries[i].0@),
        entries_map(entries)[entries[i].0@] == entries[i].1,
{
    assert(entry_keys(entries)[i] == entries[i].0@);
    lemma_index_of_unique(entry_keys(entries), i);
}

proof fn lemma_map_push<V>(entries: Seq<(String, V)>, key: String, value: V)
    requires
        entry_keys(entries).no_duplicates(),
        !entry_keys(entries).contains(key@),
    ensures
        entry_keys(entries.push((key, value))) == entry_keys(entries).push(key@),
        entry_keys(entries.push((key, value))).no_duplicates(),
        entries_map(entries.push((key, value))) == entries_map(entries).insert(key@, value),
{
    let new_entries = entries.push((key, value));
    let keys = entry_keys(entries);
    let new_keys = entry_keys(new_entries);
    assert(new_keys =~= keys.push(key@));
    assert forall|i: int, j: int|
        0 <= i < new_keys.len() && 0 <= j < new_keys.len() && i != j implies new_keys[i]
        != new_keys[j] by {
        if i < keys.len() && j < keys.len() {
        } else if i < keys.len() {
            assert(keys.contains(keys[i]));
        } else {
            assert(keys.contains(keys[j]));
        }
    }
    let m = entries_map(new_entries);
    let expected = entries_map(entries).insert(key@, value);
    assert forall|k: Seq<char>| m.dom().contains(k) <==> expected.dom().contains(k) by {
        if keys.contains(k) {
            let i = keys.index_of(k);
            assert(new_keys[i] == k);
        }
        if k == key@ {
            assert(new_keys[new_keys.len() - 1] == k);
        }
        if new_keys.contains(k) {
            let i = new_keys.index_of(k);
            if i < keys.len() {
                assert(keys[i] == k);
            }
        }
    }
    assert forall|k: Seq<char>| #[trigger] m.dom().contains(k) implies m[k] == expected[k] by {
        let i = new_keys.index_of(k);
        lemma_index_of_unique(new_keys, i);
        if k == key@ {
            lemma_index_of_unique(new_keys, new_keys.len() - 1);
        } else {
            assert(i < keys.len());
            lemma_index_of_unique(keys, i);
            assert(new_entries[i] == entries[i]);
        }
    }
    assert(m =~= expected);
}

proof fn lemma_map_remove<V>(entries: Seq<(String, V)>, i: int)
    requires
        entry_keys(entries).no_duplicates(),
        0 <= i < entries.len(),
    ensures
        entry_keys(entries.remove(i)) == entry_keys(entries).remove(i),
        entry_keys(entries.remove(i)).no_duplicates(),
        !entry_keys(entries.remove(i)).contains(entries[i].0@),
        entries_map(entries.remove(i)) == entries_map(entries).remove(entries[i].0@),
{
    let new_entries = entries.remove(i);
    let keys = entry_keys(entries);
    let new_keys = entry_keys(new_entries);
    let gone = entries[i].0@;
    assert(new_keys =~= keys.remove(i));
    assert(keys[i] == gone);
    assert forall|a: int, b: int|
        0 <= a < new_keys.len() && 0 <= b < new_keys.len() && a != b implies new_keys[a]
        != new_keys[b] by {
        let a2 = if a < i {
            a
        } else {
            a + 1
        };
        let b2 = if b < i {
            b
        } else {
            b + 1
        };
        assert(new_keys[a] == keys[a2]);
        assert(new_keys[b] == keys[b2]);
    }
    assert forall|a: int| 0 <= a < new_keys.len() implies new_keys[a] != gone by {
        let a2 = if a < i {
            a
        } else {
            a + 1
        };
        assert(new_keys[a] == keys[a2]);
    }
    let m = entries_map(new_entries);
    let expected = entries_map(entries).remove(gone);
    assert forall|k: Seq<char>| m.dom().contains(k) <==> expected.dom().contains(k) by {
        if keys.contains(k) && k != gone {
            let j = keys.index_of(k);
            assert(j != i);
            let j2 = if j < i {
                j
            } else {
                j - 1
            };
            assert(new_keys[j2] == k);
        }
        if new_keys.contains(k) {
            let j = new_keys.index_of(k);
            let j2 = if j < i {
                j
            } else {
                j + 1
            };
            assert(keys[j2] == k);
        }
    }
    assert forall|k: Seq<char>| #[trigger] m.dom().contains(k) implies m[k] == expected[k] by {
        let j = new_keys.index_of(k);
        lemma_index_of_unique(new_keys, j);
        let j2 = if j < i {
            j
        } else {
            j + 1
        };
        assert(keys[j2] == k);
        lemma_index_of_unique(keys, j2);
        assert(new_entries[j] == entries[j2]);
    }
    assert(m =~= expected);
}

impl<V> View for KeyedStore<V> {
    type V = Map<Seq<char>, V>;

    closed spec fn view(&self) -> Map<Seq<char>, V> {
        entries_map(self.entries@)
    }
}

impl<V> KeyedStore<V> {
    /// No key occurs twice.
    #[verifier::type_invariant]
    spec fn inv(&self) -> bool {
        entry_keys(self.entries@).no_duplicates()
    }

    /// The keys in the order of their latest storing: a key stored anew moves last.
    pub closed spec fn key_order(&self) -> Seq<Seq<char>> {
        entry_keys(self.entries@)
    }

    /// An empty store.
    pub fn new() -> (res: Self)
        ensures
            res@ == Map::<Seq<char>, V>::empty(),
            res.key_order() == Seq::<Seq<char>>::empty(),
    {
        let res = KeyedStore { entries: Vec::new() };
        assert(res@ =~= Map::<Seq<char>, V>::empty());
        assert(res.key_order() =~= Seq::<Seq<char>>::empty());
        res
    }

    /// The position of `key` among the entries.
    fn find(&self, key: &str) -> (res: Option<usize>)
        ensures
            match res {
                Some(i) => i < self.entries@.len() && self.entries@[i as int].0@ == key@,
                None => !entry_keys(self.entries@).contains(key@),
            },
    {
        let mut i: usize = 0;
        while i < self.entries.len()
            invariant
                i <= self.entries@.len(),
                forall|t: int| 0 <= t < i ==> self.entries@[t].0@ != key@,
            decreases self.entries.len() - i,
        {
            if str_eq(self.entries[i].0.as_str(), key) {
                return Some(i);
            }
            i = i + 1;
        }
        assert forall|t: int|
            0 <= t < self.entries@.len() implies entry_keys(self.entries@)[t] != key@ by {
            assert(entry_keys(self.entries@)[t] == self.entries@[t].0@);
        }
        None
    }

    /// Number of keys.
    pub fn len(&self) -> (res: usize)
        ensures
            res == self@.len(),
            self@.dom().finite(),
    {
        proof {
            use_type_invariant(self);
        }
        proof {
            let keys = entry_keys(self.entries@);
            keys.unique_seq_to_set();
            assert(self@.dom() =~= keys.to_set());
        }
        self.entries.len()
    }

    /// Whether the store holds no key.
    pub fn is_empty(&self) -> (res: bool)
        ensures
            res == (self@.dom() == Set::<Seq<char>>::empty()),
    {
        proof {
            use_type_invariant(self);
        }
        let n = self.entries.len();
        proof {
            if n != 0 {
                let k = self.entries@[0].0@;
                lemma_map_lookup(self.entries@, 0);
                assert(self@.dom().contains(k));
            } else {
                assert(entry_keys(self.entries@).len() == 0);
                assert(self@.dom() =~= Set::<Seq<char>>::empty());
            }
        }
        n == 0
    }

    /// Whether `key` is present.
    pub fn contains_key(&self, key: &str) -> (res: bool)
        ensures
            res == self@.dom().contains(key@),
    {
        proof {
            use_type_invariant(self);
        }
        match self.find(key) {
            Some(i) => {
                proof {
                    lemma_map_lookup(self.entries@, i as int);
                }
                true
            },
            None => false,
        }
    }

    /// The value stored under `key`.
    pub fn get(&self, key: &str) -> (res: Option<&V>)
        ensures
            match res {
                Some(v) => stored(self@, key@) == Some(*v),
                None => stored(self@, key@) is None,
            },
    {
        proof {
            use_type_invariant(self);
        }
        match self.find(key) {
            Some(i) => {
                proof {
                    lemma_map_lookup(self.entries@, i as int);
                }
                Some(&self.entries[i].1)
            },
            None => None,
        }
    }

    /// Stores `value` under `key`, handing back the value it replaces.
    pub fn insert(&mut self, key: String, value: V) -> (res: Option<V>)
        ensures
            final(self)@ == old(self)@.insert(key@, value),
            final(self).key_order() == old(self).key_order().remove_value(key@).push(key@),
            res == stored(old(self)@, key@),
    {
        proof {
            use_type_invariant(&*self);
        }
        let found = self.find(key.as_str());
        let mut entries: Vec<(String, V)> = Vec::new();
        std::mem::swap(&mut entries, &mut self.entries);
        let ghost before = entries@;
        assert(before == old(self).entries@);
        match found {
            Some(i) => {
                proof {
                    lemma_map_lookup(before, i as int);
                    lemma_map_remove(before, i as int);
                    assert(entry_keys(before)[i as int] == key@);
                    lemma_remove_value_at(entry_keys(before), i as int);
                }
                let (_, previous) = entries.remove(i);
                proof {
                    assert(entries@ == before.remove(i as int));
                    lemma_map_push(entries@, key, value);
                }
                entries.push((key, value));
                proof {
                    assert(entries_map(before).remove(key@).insert(key@, value) =~= entries_map(
                        before,
                    ).insert(key@, value));
                }
                self.entries = entries;
                Some(previous)
            },
            None => {
                proof {
                    lemma_map_push(entries@, key, value);
                    lemma_remove_value_absent(entry_keys(entries@), key@);
                }
                entries.push((key, value));
                self.entries = entries;
                None
            },
        }
    }

    /// Takes the value stored under `key` out of the store.
    pub fn remove(&mut self, key: &str) -> (res: Option<V>)
        ensures
            final(self)@ == old(self)@.remove(key@),
            final(self).key_order() == old(self).key_order().remove_value(key@),
            res == stored(old(self)@, key@),
    {
        proof {
            use_type_invariant(&*self);
        }
        match self.find(key) {
            Some(i) => {
                let mut entries: Vec<(String, V)> = Vec::new();
                std::mem::swap(&mut entries, &mut self.entries);
                let ghost before = entries@;
                proof {
                    lemma_map_lookup(before, i as int);
                    lemma_map_remove(before, i as int);
                    assert(entry_keys(before)[i as int] == key@);
                    lemma_remove_value_at(entry_keys(before), i as int);
                }
                let (_, v) = entries.remove(i);
                self.entries = entries;
                Some(v)
            },
            None => {
                proof {
                    assert(self@.remove(key@) =~= self@);
                    lemma_remove_value_absent(entry_keys(self.entries@), key@);
                }
                None
            },
        }
    }

    /// The keys, in the order of their latest storing.
    pub fn keys(&self) -> (res: Vec<String>)
        ensures
            res@.map_values(|s: String| s@) == self.key_order(),
            res@.map_values(|s: String| s@).no_duplicates(),
            res@.map_values(|s: String| s@).to_set() == self@.dom(),
            res@.len() == self@.len(),
    {
        proof {
            use_type_invariant(self);
        }
        let mut res: Vec<String> = Vec::new();
        let mut i: usize = 0;
        while i < self.entries.len()
            invariant
                i <= self.entries@.len(),
                res@.map_values(|s: String| s@) == entry_keys(self.entries@).take(i as int),
            decreases self.entries.len() - i,
        {
            let ghost before = res@;
            let key = self.entries[i].0.clone();
            res.push(key);
            assert(res@ == before.push(key));
            assert(entry_keys(self.entries@)[i as int] == self.entries@[i as int].0@);
            assert(entry_keys(self.entries@).take(i + 1) =~= entry_keys(self.entries@).take(
                i as int,
            ).push(key@));
            assert(res@.map_values(|s: String| s@) =~= before.map_values(|s: String| s@).push(
                key@,
            ));
            i = i + 1;
        }
        let ghost keys = entry_keys(self.entries@);
        assert(keys.take(self.entries@.len() as int) =~= keys);
        assert(self@.dom() =~= keys.to_set());
        proof {
            keys.unique_seq_to_set();
        }
        res
    }
}

/// What a read gives back of a write: after storing `value` under `key`, a lookup of
/// `key` gives `value` and the store lists `key` last; after removing `key`, a lookup
/// gives nothing; either way every other key keeps what it held.  Storing then
/// removing a key leaves the store as removing it alone would, and storing under a
/// key that was absent adds exactly one entry.
pub proof fn law_read_after_write<V>(store: KeyedStore<V>, key: Seq<char>, value: V, other: Seq<char>)
    requires
        other != key,
    ensures
        stored(store@.insert(key, value), key) == Some(value),
        stored(store@.insert(key, value), other) == stored(store@, other),
        store.key_order().remove_value(key).push(key).last() == key,
        stored(store@.remove(key), key) is None,
        stored(store@.remove(key), other) == stored(store@, other),
        store@.insert(key, value).remove(key) == store@.remove(key),
        stored(store@, key) is None ==> store@.insert(key, value).len() == store@.len() + 1,
{
    let keys = entry_keys(store.entries@);
    assert(store@.dom() =~= keys.to_set());
    assert(store@.insert(key, value).remove(key) =~= store@.remove(key));
}

} // verus!
