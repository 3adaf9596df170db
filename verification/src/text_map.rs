//! A map from text keys to values, kept as a list of entries in which no
//! key occurs twice.
//!
//! The map is what the configuration snapshots and the routing tables are
//! made of. Its model is a mathematical map; the order of the entries is
//! the order in which the keys first came in, and nothing that is stated of
//! a snapshot depends on it.

use vstd::prelude::*;

verus! {

/// Some entry has the key `key`.
pub open spec fn spec_has_key<V>(entries: Seq<(Seq<char>, V)>, key: Seq<char>) -> bool {
    exists|i: int| 0 <= i < entries.len() && (#[trigger] entries[i]).0 == key
}

/// The position of an entry with the key `key`.
pub open spec fn spec_index_of<V>(entries: Seq<(Seq<char>, V)>, key: Seq<char>) -> int {
    choose|i: int| 0 <= i < entries.len() && (#[trigger] entries[i]).0 == key
}

/// No key occurs in two entries.
pub open spec fn spec_distinct_keys<V>(entries: Seq<(Seq<char>, V)>) -> bool {
    forall|i: int, j: int|
        0 <= i < j < entries.len() ==> (#[trigger] entries[i]).0 != (#[trigger] entries[j]).0
}

/// The map that a list of entries stands for.
pub open spec fn spec_map_of<V>(entries: Seq<(Seq<char>, V)>) -> Map<Seq<char>, V> {
    Map::new(
        |key: Seq<char>| spec_has_key(entries, key),
        |key: Seq<char>| entries[spec_index_of(entries, key)].1,
    )
}

/// In a list with distinct keys, an entry is found at its own position.
pub proof fn lemma_index_of_entry<V>(entries: Seq<(Seq<char>, V)>, i: int)
    requires
        spec_distinct_keys(entries),
        0 <= i < entries.len(),
    ensures
        spec_has_key(entries, entries[i].0),
        spec_index_of(entries, entries[i].0) == i,
        spec_map_of(entries)[entries[i].0] == entries[i].1,
{
    let j = spec_index_of(entries, entries[i].0);
    assert(0 <= j < entries.len() && entries[j].0 == entries[i].0);
    if j < i {
        assert(entries[j].0 != entries[i].0);
    } else if i < j {
        assert(entries[i].0 != entries[j].0);
    }
}

/// Adding an entry with a new key adds the key to the map.
pub proof fn lemma_map_of_push<V>(entries: Seq<(Seq<char>, V)>, key: Seq<char>, value: V)
    requires
        spec_distinct_keys(entries),
        !spec_has_key(entries, key),
    ensures
        spec_distinct_keys(entries.push((key, value))),
        spec_map_of(entries.push((key, value))) == spec_map_of(entries).insert(key, value),
{
    let longer = entries.push((key, value));
    assert forall|i: int, j: int| 0 <= i < j < longer.len() implies (#[trigger] longer[i]).0 != (
    #[trigger] longer[j]).0 by {
        if j == entries.len() {
            assert(entries[i].0 != key);
        } else {
            assert(entries[i].0 != entries[j].0);
        }
    }
    assert forall|k: Seq<char>| spec_has_key(longer, k) <==> (spec_has_key(entries, k) || k
        == key) by {
        if spec_has_key(longer, k) {
            let i = spec_index_of(longer, k);
            if i < entries.len() {
                assert(entries[i].0 == k);
            }
        }
        if spec_has_key(entries, k) {
            let i = spec_index_of(entries, k);
            assert(longer[i].0 == k);
        }
        if k == key {
            assert(longer[entries.len() as int].0 == k);
        }
    }
    assert forall|k: Seq<char>| spec_has_key(longer, k) implies #[trigger] spec_map_of(longer)[k]
        == spec_map_of(entries).insert(key, value)[k] by {
        let i = spec_index_of(longer, k);
        lemma_index_of_entry(longer, i);
        if i < entries.len() {
            lemma_index_of_entry(entries, i);
        }
    }
    assert(spec_map_of(longer) =~= spec_map_of(entries).insert(key, value));
}

/// Replacing the value of an entry replaces the value of its key in the map.
pub proof fn lemma_map_of_update<V>(entries: Seq<(Seq<char>, V)>, at: int, value: V)
    requires
        spec_distinct_keys(entries),
        0 <= at < entries.len(),
    ensures
        spec_distinct_keys(entries.update(at, (entries[at].0, value))),
        spec_map_of(entries.update(at, (entries[at].0, value))) == spec_map_of(entries).insert(
            entries[at].0,
            value,
        ),
{
    let key = entries[at].0;
    let changed = entries.update(at, (key, value));
    assert forall|i: int, j: int| 0 <= i < j < changed.len() implies (#[trigger] changed[i]).0 != (
    #[trigger] changed[j]).0 by {
        assert(entries[i].0 != entries[j].0);
    }
    assert forall|k: Seq<char>| spec_has_key(changed, k) <==> spec_has_key(entries, k) by {
        if spec_has_key(changed, k) {
            let i = spec_index_of(changed, k);
            assert(entries[i].0 == k);
        }
        if spec_has_key(entries, k) {
            let i = spec_index_of(entries, k);
            assert(changed[i].0 == k);
        }
    }
    assert(spec_has_key(entries, key)) by {
        assert(entries[at].0 == key);
    }
    assert forall|k: Seq<char>| spec_has_key(changed, k) implies #[trigger] spec_map_of(
        changed,
    )[k] == spec_map_of(entries).insert(key, value)[k] by {
        let i = spec_index_of(changed, k);
        lemma_index_of_entry(changed, i);
        lemma_index_of_entry(entries, i);
    }
    assert(spec_map_of(changed) =~= spec_map_of(entries).insert(key, value));
}

/// Taking an entry out takes its key out of the map.
pub proof fn lemma_map_of_remove<V>(entries: Seq<(Seq<char>, V)>, at: int)
    requires
        spec_distinct_keys(entries),
        0 <= at < entries.len(),
    ensures
        spec_distinct_keys(entries.remove(at)),
        spec_map_of(entries.remove(at)) == spec_map_of(entries).remove(entries[at].0),
{
    let key = entries[at].0;
    let shorter = entries.remove(at);
    assert forall|i: int, j: int| 0 <= i < j < shorter.len() implies (#[trigger] shorter[i]).0 != (
    #[trigger] shorter[j]).0 by {
        let from_i = if i < at { i } else { i + 1 };
        let from_j = if j < at { j } else { j + 1 };
        assert(entries[from_i].0 != entries[from_j].0);
    }
    assert forall|k: Seq<char>| spec_has_key(shorter, k) <==> (spec_has_key(entries, k) && k
        != key) by {
        if spec_has_key(shorter, k) {
            let i = spec_index_of(shorter, k);
            let from = if i < at { i } else { i + 1 };
            assert(entries[from].0 == k);
            if from < at {
                assert(entries[from].0 != entries[at].0);
            } else {
                assert(entries[at].0 != entries[from].0);
            }
        }
        if spec_has_key(entries, k) && k != key {
            let i = spec_index_of(entries, k);
            let to = if i < at { i } else { i - 1 };
            assert(shorter[to].0 == k);
        }
    }
    assert forall|k: Seq<char>| spec_has_key(shorter, k) implies #[trigger] spec_map_of(
        shorter,
    )[k] == spec_map_of(entries).remove(key)[k] by {
        let i = spec_index_of(shorter, k);
        let from = if i < at { i } else { i + 1 };
        lemma_index_of_entry(shorter, i);
        lemma_index_of_entry(entries, from);
    }
    assert(spec_map_of(shorter) =~= spec_map_of(entries).remove(key));
}

/// The entries that a list of keys and a list of values make, pair by pair.
spec fn spec_zip<V>(keys: Seq<String>, values: Seq<V>) -> Seq<(Seq<char>, V)> {
    Seq::new(keys.len(), |i: int| (keys[i]@, values[i]))
}

/// A map from text keys to values.
#[derive(Debug)]
pub struct TextMap<V> {
    keys: Vec<String>,
    values: Vec<V>,
}

impl<V: Clone> Clone for TextMap<V> {
    /// A map with the same keys in the same order, each with a clone of
    /// its value.
    fn clone(&self) -> (copy: Self)
        ensures
            copy.entries().len() == self.entries().len(),
            forall|i: int|
                0 <= i < self.entries().len() ==> (#[trigger] copy.entries()[i]).0
                    == self.entries()[i].0,
    {
        proof {
            use_type_invariant(self);
        }
        let keys = self.keys.clone();
        let values = self.values.clone();
        assert forall|i: int, j: int| 0 <= i < j < keys@.len() implies (#[trigger] spec_zip(
            keys@,
            values@,
        )[i]).0 != (#[trigger] spec_zip(keys@, values@)[j]).0 by {
            assert(keys@[i]@ == self.entries()[i].0);
            assert(keys@[j]@ == self.entries()[j].0);
        }
        TextMap { keys, values }
    }
}

impl<V> View for TextMap<V> {
    type V = Map<Seq<char>, V>;

    /// The map that the entries stand for.
    open spec fn view(&self) -> Map<Seq<char>, V> {
        spec_map_of(self.entries())
    }
}

impl<V> TextMap<V> {
    #[verifier::type_invariant]
    spec fn well_formed(self) -> bool {
        &&& self.keys@.len() == self.values@.len()
        &&& spec_distinct_keys(self.entries())
    }

    /// The entries in the order in which they are kept.
    pub closed spec fn entries(&self) -> Seq<(Seq<char>, V)> {
        spec_zip(self.keys@, self.values@)
    }

    /// A map without entries.
    pub fn new() -> (map: Self)
        ensures
            map.entries() == Seq::<(Seq<char>, V)>::empty(),
            map@ == Map::<Seq<char>, V>::empty(),
            spec_distinct_keys(map.entries()),
    {
        let map = TextMap { keys: Vec::new(), values: Vec::new() };
        assert(map.entries() =~= Seq::<(Seq<char>, V)>::empty());
        assert(map@ =~= Map::<Seq<char>, V>::empty());
        map
    }

    /// The number of entries; no key occurs in two of them.
    pub fn len(&self) -> (len: usize)
        ensures
            len == self.entries().len(),
            spec_distinct_keys(self.entries()),
    {
        proof {
            use_type_invariant(self);
        }
        self.keys.len()
    }

    /// The key of the entry at position `at`.
    pub fn key_at(&self, at: usize) -> (key: &str)
        requires
            at < self.entries().len(),
        ensures
            key@ == self.entries()[at as int].0,
    {
        self.keys[at].as_str()
    }

    /// The value of the entry at position `at`.
    pub fn value_at(&self, at: usize) -> (value: &V)
        requires
            at < self.entries().len(),
        ensures
            *value == self.entries()[at as int].1,
    {
        proof {
            use_type_invariant(self);
        }
        &self.values[at]
    }

    /// The position of the entry with the key `key`, if there is one.
    fn position(&self, key: &String) -> (at: Option<usize>)
        ensures
            match at {
                Some(i) => i < self.entries().len() && self.entries()[i as int].0 == key@,
                None => !spec_has_key(self.entries(), key@),
            },
    {
        let mut i: usize = 0;
        while i < self.keys.len()
            invariant
                i <= self.keys@.len(),
                self.entries().len() == self.keys@.len(),
                forall|j: int| 0 <= j < i ==> (#[trigger] self.entries()[j]).0 != key@,
            decreases self.keys@.len() - i,
        {
            if self.keys[i] == *key {
                return Some(i);
            }
            i += 1;
        }
        None
    }

    /// The value of a key, if the map holds the key.
    pub fn get(&self, key: &str) -> (value: Option<&V>)
        ensures
            match value {
                Some(found) => self@.dom().contains(key@) && *found == self@[key@],
                None => !self@.dom().contains(key@),
            },
            spec_distinct_keys(self.entries()),
    {
        proof {
            use_type_invariant(self);
        }
        let owned = String::from_str(key);
        match self.position(&owned) {
            Some(i) => {
                proof {
                    lemma_index_of_entry(self.entries(), i as int);
                }
                Some(&self.values[i])
            },
            None => None,
        }
    }

    /// Whether the map holds a key.
    pub fn contains_key(&self, key: &str) -> (found: bool)
        ensures
            found == self@.dom().contains(key@),
    {
        self.get(key).is_some()
    }

    /// Puts a value under a key. A value that the key had before is
    /// replaced, and its entry keeps its place; a new key goes to the end.
    pub fn insert(&mut self, key: String, value: V) -> (replaced: bool)
        ensures
            final(self)@ == old(self)@.insert(key@, value),
            replaced == old(self)@.dom().contains(key@),
            replaced ==> final(self).entries() == old(self).entries().update(
                spec_index_of(old(self).entries(), key@),
                (key@, value),
            ),
            !replaced ==> final(self).entries() == old(self).entries().push((key@, value)),
            spec_distinct_keys(old(self).entries()),
            spec_distinct_keys(final(self).entries()),
    {
        proof {
            use_type_invariant(&*self);
        }
        let ghost before = self.entries();
        let found = self.position(&key);
        let mut taken = TextMap::new();
        std::mem::swap(self, &mut taken);
        let TextMap { mut keys, mut values } = taken;
        match found {
            Some(i) => {
                proof {
                    lemma_index_of_entry(before, i as int);
                    lemma_map_of_update(before, i as int, value);
                }
                values.set(i, value);
                assert(spec_zip(keys@, values@) =~= before.update(i as int, (key@, value)));
                *self = TextMap { keys, values };
                true
            },
            None => {
                proof {
                    lemma_map_of_push(before, key@, value);
                }
                keys.push(key);
                values.push(value);
                assert(spec_zip(keys@, values@) =~= before.push((key@, value)));
                *self = TextMap { keys, values };
                false
            },
        }
    }

    /// Takes a key out of the map and hands its value over, if the map
    /// holds the key. The other entries keep their order.
    pub fn remove(&mut self, key: &str) -> (value: Option<V>)
        ensures
            final(self)@ == old(self)@.remove(key@),
            match value {
                Some(taken) => old(self)@.dom().contains(key@) && taken == old(self)@[key@]
                    && final(self).entries() == old(self).entries().remove(
                    spec_index_of(old(self).entries(), key@),
                ),
                None => !old(self)@.dom().contains(key@) && final(self).entries() == old(
                    self,
                ).entries(),
            },
            spec_distinct_keys(old(self).entries()),
            spec_distinct_keys(final(self).entries()),
    {
        proof {
            use_type_invariant(&*self);
        }
        let ghost before = self.entries();
        let owned = String::from_str(key);
        match self.position(&owned) {
            None => {
                assert(self@.remove(key@) =~= self@);
                None
            },
            Some(i) => {
                proof {
                    lemma_index_of_entry(before, i as int);
                    lemma_map_of_remove(before, i as int);
                }
                let mut taken = TextMap::new();
                std::mem::swap(self, &mut taken);
                let TextMap { mut keys, mut values } = taken;
                keys.remove(i);
                let value = values.remove(i);
                assert(spec_zip(keys@, values@) =~= before.remove(i as int));
                *self = TextMap { keys, values };
                Some(value)
            },
        }
    }
}

} // verus!
