//! A small map backed by a vector of key/value pairs, for registries
//! keyed by host-defined types.
//!
//! Lookup compares keys with `==`, so reading a `ListMap` through its
//! [`Map`] view asks for [`equatable`] keys. Entries with duplicate keys
//! never arise: `insert` replaces the entry that already carries the key.

use vstd::prelude::*;
use crate::keys::equatable;

verus! {

/// The map described by a key/value sequence: the earliest entry with a
/// given key is the one that counts.
pub open spec fn map_of<K, V>(s: Seq<(K, V)>) -> Map<K, V>
    decreases s.len(),
{
    if s.len() == 0 {
        Map::empty()
    } else {
        map_of(s.skip(1)).insert(s[0].0, s[0].1)
    }
}

/// Some entry of `s` carries the key `k`.
pub open spec fn has_key<K, V>(s: Seq<(K, V)>, k: K) -> bool {
    exists|i: int| 0 <= i < s.len() && (#[trigger] s[i]).0 == k
}

/// No two entries of `s` carry the same key.
pub open spec fn distinct_keys<K, V>(s: Seq<(K, V)>) -> bool {
    forall|i: int, j: int| 0 <= i < j < s.len() ==> (#[trigger] s[i]).0 != (#[trigger] s[j]).0
}

/// The domain of `map_of(s)` is exactly the set of keys of `s`.
pub proof fn lemma_map_of_dom<K, V>(s: Seq<(K, V)>)
    ensures
        map_of(s).dom().finite(),
        forall|k: K| #[trigger] map_of(s).dom().contains(k) <==> has_key(s, k),
    decreases s.len(),
{
    if s.len() == 0 {
    } else {
        lemma_map_of_dom(s.skip(1));
        assert forall|k: K| #[trigger] map_of(s).dom().contains(k) <==> has_key(s, k) by {
            if map_of(s).dom().contains(k) {
                if k == s[0].0 {
                    assert(s[0].0 == k);
                } else {
                    let i = choose|i: int|
                        0 <= i < s.skip(1).len() && (#[trigger] s.skip(1)[i]).0 == k;
                    assert(s[i + 1] == s.skip(1)[i]);
                }
            }
            if has_key(s, k) {
                let i = choose|i: int| 0 <= i < s.len() && (#[trigger] s[i]).0 == k;
                if i > 0 {
                    assert(s.skip(1)[i - 1] == s[i]);
                    assert(has_key(s.skip(1), k));
                }
            }
        }
    }
}

/// The first entry carrying a key decides the value the map gives it.
pub proof fn lemma_map_of_first<K, V>(s: Seq<(K, V)>, i: int)
    requires
        0 <= i < s.len(),
        forall|j: int| 0 <= j < i ==> (#[trigger] s[j]).0 != s[i].0,
    ensures
        map_of(s).dom().contains(s[i].0),
        map_of(s)[s[i].0] == s[i].1,
    decreases s.len(),
{
    if i > 0 {
        assert(s.skip(1)[i - 1] == s[i]);
        assert forall|j: int| 0 <= j < i - 1 implies (#[trigger] s.skip(1)[j]).0 != s.skip(1)[i
            - 1].0 by {
            assert(s.skip(1)[j] == s[j + 1]);
        }
        lemma_map_of_first(s.skip(1), i - 1);
    }
}

/// Appending an entry whose key is fresh inserts it into the map.
pub proof fn lemma_map_of_push<K, V>(s: Seq<(K, V)>, k: K, v: V)
    requires
        !has_key(s, k),
    ensures
        map_of(s.push((k, v))) == map_of(s).insert(k, v),
    decreases s.len(),
{
    if s.len() == 0 {
        assert(s.push((k, v)).skip(1) =~= Seq::<(K, V)>::empty());
        assert(map_of(s.push((k, v)).skip(1)) =~= Map::<K, V>::empty());
        assert(map_of(s.push((k, v))) =~= map_of(s).insert(k, v));
    } else {
        assert(s.push((k, v)).skip(1) =~= s.skip(1).push((k, v)));
        if has_key(s.skip(1), k) {
            let i = choose|i: int| 0 <= i < s.skip(1).len() && (#[trigger] s.skip(1)[i]).0 == k;
            assert(s[i + 1] == s.skip(1)[i]);
            assert(false);
        }
        lemma_map_of_push(s.skip(1), k, v);
        assert(s[0].0 != k);
        assert(map_of(s.push((k, v))) =~= map_of(s).insert(k, v));
    }
}

/// Replacing the value of a first-occurrence entry updates the map at
/// its key.
pub proof fn lemma_map_of_update<K, V>(s: Seq<(K, V)>, i: int, v: V)
    requires
        0 <= i < s.len(),
        forall|j: int| 0 <= j < i ==> (#[trigger] s[j]).0 != s[i].0,
    ensures
        map_of(s.update(i, (s[i].0, v))) == map_of(s).insert(s[i].0, v),
    decreases s.len(),
{
    let t = s.update(i, (s[i].0, v));
    if i == 0 {
        assert(t.skip(1) =~= s.skip(1));
        assert(map_of(t) =~= map_of(s).insert(s[0].0, v));
    } else {
        assert(t.skip(1) =~= s.skip(1).update(i - 1, (s.skip(1)[i - 1].0, v)));
        assert forall|j: int| 0 <= j < i - 1 implies (#[trigger] s.skip(1)[j]).0 != s.skip(1)[i
            - 1].0 by {
            assert(s.skip(1)[j] == s[j + 1]);
        }
        lemma_map_of_update(s.skip(1), i - 1, v);
        assert(s.skip(1)[i - 1] == s[i]);
        assert(s[0].0 != s[i].0);
        assert(map_of(t) =~= map_of(s).insert(s[i].0, v));
    }
}

/// With distinct keys, the map is exactly as large as the sequence.
pub proof fn lemma_map_of_len<K, V>(s: Seq<(K, V)>)
    requires
        distinct_keys(s),
    ensures
        map_of(s).dom().finite(),
        map_of(s).dom().len() == s.len(),
    decreases s.len(),
{
    lemma_map_of_dom(s);
    if s.len() == 0 {
    } else {
        assert forall|i: int, j: int| 0 <= i < j < s.skip(1).len() implies (#[trigger] s.skip(
            1,
        )[i]).0 != (#[trigger] s.skip(1)[j]).0 by {
            assert(s.skip(1)[i] == s[i + 1]);
            assert(s.skip(1)[j] == s[j + 1]);
        }
        lemma_map_of_len(s.skip(1));
        lemma_map_of_dom(s.skip(1));
        if has_key(s.skip(1), s[0].0) {
            let i = choose|i: int|
                0 <= i < s.skip(1).len() && (#[trigger] s.skip(1)[i]).0 == s[0].0;
            assert(s[i + 1] == s.skip(1)[i]);
            assert(false);
        }
        assert(map_of(s).dom() =~= map_of(s.skip(1)).dom().insert(s[0].0));
    }
}

/// A map from keys to values, stored as a vector of entries with
/// pairwise distinct keys.
#[derive(Debug)]
pub struct ListMap<K, V> {
    entries: Vec<(K, V)>,
}

impl<K, V> ListMap<K, V> {
    /// The stored entries, in insertion order.
    pub closed spec fn kv_seq(self) -> Seq<(K, V)> {
        self.entries@
    }

    /// No key is stored twice.
    pub open spec fn wf(self) -> bool {
        distinct_keys(self.kv_seq())
    }
}

impl<K, V> View for ListMap<K, V> {
    type V = Map<K, V>;

    open spec fn view(&self) -> Map<K, V> {
        map_of(self.kv_seq())
    }
}

impl<K: PartialEq + Eq, V> ListMap<K, V> {
    /// An empty map.
    pub fn new() -> (r: Self)
        ensures
            r@ == Map::<K, V>::empty(),
            r.kv_seq() == Seq::<(K, V)>::empty(),
            r.wf(),
    {
        ListMap { entries: Vec::new() }
    }

    /// How many keys are stored.
    pub fn len(&self) -> (r: usize)
        ensures
            r == self.kv_seq().len(),
            self.wf() ==> r == self@.dom().len(),
    {
        proof {
            if self.wf() {
                lemma_map_of_len(self.kv_seq());
            }
        }
        self.entries.len()
    }

    /// The entry at a position, for walks over the whole map.
    pub fn entry_at(&self, i: usize) -> (r: &(K, V))
        requires
            i < self.kv_seq().len(),
        ensures
            *r == self.kv_seq()[i as int],
    {
        &self.entries[i]
    }

    /// Replaces the value at a position, keeping its key.
    pub fn set_value_at(&mut self, i: usize, value: V)
        requires
            old(self).wf(),
            i < old(self).kv_seq().len(),
        ensures
            final(self).wf(),
            final(self).kv_seq() == old(self).kv_seq().update(
                i as int,
                (old(self).kv_seq()[i as int].0, value),
            ),
            final(self)@ == old(self)@.insert(old(self).kv_seq()[i as int].0, value),
    {
        proof {
            lemma_map_of_update(self.kv_seq(), i as int, value);
        }
        self.entries[i].1 = value;
        assert(self.kv_seq() =~= old(self).kv_seq().update(
            i as int,
            (old(self).kv_seq()[i as int].0, value),
        ));
    }

    /// The position of the entry carrying `key`, if one is stored.
    fn index_of(&self, key: &K) -> (r: Option<usize>)
        requires
            equatable::<K>(),
        ensures
            match r {
                Some(i) => i < self.kv_seq().len() && self.kv_seq()[i as int].0 == *key
                    && forall|j: int| 0 <= j < i ==> (#[trigger] self.kv_seq()[j]).0 != *key,
                None => !has_key(self.kv_seq(), *key),
            },
    {
        let mut i: usize = 0;
        while i < self.entries.len()
            invariant
                equatable::<K>(),
                i <= self.kv_seq().len(),
                forall|j: int| 0 <= j < i ==> (#[trigger] self.kv_seq()[j]).0 != *key,
            decreases self.kv_seq().len() - i,
        {
            if self.entries[i].0 == *key {
                return Some(i);
            }
            i = i + 1;
        }
        None
    }

    /// Whether `key` is stored.
    pub fn contains_key(&self, key: &K) -> (r: bool)
        requires
            equatable::<K>(),
        ensures
            r == self@.dom().contains(*key),
    {
        proof {
            lemma_map_of_dom(self.kv_seq());
        }
        self.index_of(key).is_some()
    }

    /// The value stored under `key`, if any.
    pub fn get(&self, key: &K) -> (r: Option<&V>)
        requires
            equatable::<K>(),
        ensures
            match r {
                Some(v) => self@.dom().contains(*key) && *v == self@[*key],
                None => !self@.dom().contains(*key),
            },
    {
        proof {
            lemma_map_of_dom(self.kv_seq());
        }
        match self.index_of(key) {
            Some(i) => {
                proof {
                    lemma_map_of_first(self.kv_seq(), i as int);
                }
                Some(&self.entries[i].1)
            },
            None => None,
        }
    }

    /// Stores `value` under `key`, replacing any value already there.
    pub fn insert(&mut self, key: K, value: V)
        requires
            equatable::<K>(),
            old(self).wf(),
        ensures
            final(self).wf(),
            final(self)@ == old(self)@.insert(key, value),
    {
        match self.index_of(&key) {
            Some(i) => {
                proof {
                    lemma_map_of_update(self.kv_seq(), i as int, value);
                }
                self.entries[i] = (key, value);
                assert(self.kv_seq() =~= old(self).kv_seq().update(
                    i as int,
                    (old(self).kv_seq()[i as int].0, value),
                ));
            },
            None => {
                proof {
                    lemma_map_of_push(self.kv_seq(), key, value);
                }
                self.entries.push((key, value));
                assert forall|a: int, b: int|
                    0 <= a < b < self.kv_seq().len() implies (#[trigger] self.kv_seq()[a]).0 != (
                #[trigger] self.kv_seq()[b]).0 by {
                    if b == self.kv_seq().len() - 1 {
                        assert(!has_key(old(self).kv_seq(), key));
                        assert(self.kv_seq()[a] == old(self).kv_seq()[a]);
                    }
                }
            },
        }
    }

    /// Every key of the view is carried by an entry, and with distinct
    /// keys each entry's value is the one the view gives its key.
    pub proof fn lemma_entries(self)
        ensures
            forall|k: K| #[trigger] self@.dom().contains(k) <==> has_key(self.kv_seq(), k),
            self.wf() ==> forall|i: int|
                0 <= i < self.kv_seq().len() ==> self@.dom().contains(
                    (#[trigger] self.kv_seq()[i]).0,
                ) && self@[self.kv_seq()[i].0] == self.kv_seq()[i].1,
    {
        lemma_map_of_dom(self.kv_seq());
        if self.wf() {
            assert forall|i: int| 0 <= i < self.kv_seq().len() implies self@.dom().contains(
                (#[trigger] self.kv_seq()[i]).0,
            ) && self@[self.kv_seq()[i].0] == self.kv_seq()[i].1 by {
                lemma_map_of_first(self.kv_seq(), i);
            }
        }
    }
}

} // verus!
