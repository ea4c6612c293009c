//! A small map that keeps its entries in the order in which they came.

use crate::text::{same_text, texts};
use vstd::prelude::*;

verus! {

/// What can serve as a key: a value that is told from another by its view.
pub trait Key: View + Sized {
    /// Whether two keys are the same.
    fn same(&self, other: &Self) -> (yes: bool)
        ensures
            yes == (self@ == other@),
    ;
}

impl Key for String {
    fn same(&self, other: &Self) -> (yes: bool) {
        same_text(self.as_str(), other.as_str())
    }
}

/// The keys of a sequence of entries, as their views.
pub open spec fn key_views<K: View, V>(entries: Seq<(K, V)>) -> Seq<K::V> {
    Seq::new(entries.len(), |i: int| entries[i].0@)
}

/// Whether `key` is among the keys of `entries`.
pub open spec fn holds_key<K: View, V>(entries: Seq<(K, V)>, key: K::V) -> bool {
    exists|i: int| 0 <= i < entries.len() && (#[trigger] entries[i]).0@ == key
}

/// A position at which `key` stands in `entries`.
pub open spec fn position_of<K: View, V>(entries: Seq<(K, V)>, key: K::V) -> int {
    choose|i: int| 0 <= i < entries.len() && (#[trigger] entries[i]).0@ == key
}

/// No key stands at two positions.
pub open spec fn distinct_keys<K: View, V>(entries: Seq<(K, V)>) -> bool {
    forall|i: int, j: int|
        0 <= i < j < entries.len() ==> (#[trigger] entries[i]).0@ != (#[trigger] entries[j]).0@
}

/// The map that a sequence of entries stands for.
pub open spec fn map_of<K: View, V: View>(entries: Seq<(K, V)>) -> Map<K::V, V::V> {
    Map::new(
        |key: K::V| holds_key(entries, key),
        |key: K::V| entries[position_of(entries, key)].1@,
    )
}

/// Where keys are distinct, a key is found at its one position.
pub proof fn lemma_position<K: View, V: View>(entries: Seq<(K, V)>, at: int)
    requires
        distinct_keys(entries),
        0 <= at < entries.len(),
    ensures
        holds_key(entries, entries[at].0@),
        position_of(entries, entries[at].0@) == at,
        map_of(entries)[entries[at].0@] == entries[at].1@,
{
    let key = entries[at].0@;
    let found = position_of(entries, key);
    assert(0 <= found < entries.len() && entries[found].0@ == key);
    if found < at {
        assert(entries[found].0@ != entries[at].0@);
    } else if at < found {
        assert(entries[at].0@ != entries[found].0@);
    }
}

/// The keys of distinct entries are as many as the entries, and are the
/// domain of their map.
pub proof fn lemma_keys<K: View, V: View>(entries: Seq<(K, V)>)
    requires
        distinct_keys(entries),
    ensures
        map_of(entries).dom().finite(),
        map_of(entries).dom().len() == entries.len(),
        key_views(entries).no_duplicates(),
        key_views(entries).to_set() == map_of(entries).dom(),
{
    let keys = key_views(entries);
    assert(keys.no_duplicates());
    keys.unique_seq_to_set();
    assert(map_of(entries).dom() =~= keys.to_set()) by {
        assert forall|key: K::V| map_of(entries).dom().contains(key) implies keys.to_set().contains(
            key,
        ) by {
            let i = position_of(entries, key);
            assert(keys[i] == key);
        }
        assert forall|key: K::V| keys.to_set().contains(key) implies map_of(
            entries,
        ).dom().contains(key) by {
            let i = choose|i: int| 0 <= i < keys.len() && keys[i] == key;
            assert(entries[i].0@ == key);
        }
    }
}

/// Entries with the same keys and values, in the same order, stand for the
/// same map.
pub proof fn lemma_same_entries<K: View, V: View>(a: Seq<(K, V)>, b: Seq<(K, V)>)
    requires
        distinct_keys(a),
        a.len() == b.len(),
        forall|i: int| 0 <= i < a.len() ==> (#[trigger] a[i]).0@ == b[i].0@ && a[i].1@ == b[i].1@,
    ensures
        distinct_keys(b),
        key_views(b) == key_views(a),
        map_of(b) == map_of(a),
{
    assert forall|i: int, j: int| 0 <= i < j < b.len() implies (#[trigger] b[i]).0@ != (
    #[trigger] b[j]).0@ by {
        assert(a[i].0@ != a[j].0@);
    }
    assert(key_views(b) =~= key_views(a));
    assert(map_of(b) =~= map_of(a)) by {
        assert forall|k: K::V| holds_key(b, k) == holds_key(a, k) by {
            if holds_key(b, k) {
                let j = position_of(b, k);
                assert(a[j].0@ == k);
            }
            if holds_key(a, k) {
                let j = position_of(a, k);
                assert(b[j].0@ == k);
            }
        }
        assert forall|k: K::V| holds_key(b, k) implies map_of(b)[k] == map_of(a)[k] by {
            let j = position_of(b, k);
            lemma_position(b, j);
            assert(a[j].0@ == k);
            lemma_position(a, j);
        }
    }
}

/// A new entry at the end adds its key to the map.
pub proof fn lemma_entry_added<K: View, V: View>(before: Seq<(K, V)>, entry: (K, V))
    requires
        distinct_keys(before),
        !holds_key(before, entry.0@),
    ensures
        distinct_keys(before.push(entry)),
        key_views(before.push(entry)) == key_views(before).push(entry.0@),
        map_of(before.push(entry)) == map_of(before).insert(entry.0@, entry.1@),
{
    let after = before.push(entry);
    let n = before.len() as int;
    assert forall|a: int, b: int| 0 <= a < b < after.len() implies (#[trigger] after[a]).0@ != (
    #[trigger] after[b]).0@ by {
        if b < n {
            assert(before[a].0@ != before[b].0@);
        } else {
            assert(before[a].0@ != entry.0@);
        }
    }
    assert(key_views(after) =~= key_views(before).push(entry.0@));
    assert(map_of(after) =~= map_of(before).insert(entry.0@, entry.1@)) by {
        assert forall|k: K::V| holds_key(after, k) == (holds_key(before, k) || k == entry.0@) by {
            if holds_key(after, k) {
                let j = position_of(after, k);
                if j < n {
                    assert(before[j].0@ == k);
                }
            }
            if holds_key(before, k) {
                let j = position_of(before, k);
                assert(after[j].0@ == k);
            }
            if k == entry.0@ {
                assert(after[n].0@ == k);
            }
        }
        assert forall|k: K::V| holds_key(after, k) implies map_of(after)[k] == map_of(
            before,
        ).insert(entry.0@, entry.1@)[k] by {
            let j = position_of(after, k);
            lemma_position(after, j);
            if j < n {
                assert(before[j].0@ == k);
                lemma_position(before, j);
            }
        }
    }
}

/// A new value under a key that is there changes the value and nothing else.
pub proof fn lemma_entry_replaced<K: View, V: View>(before: Seq<(K, V)>, at: int, entry: (K, V))
    requires
        distinct_keys(before),
        0 <= at < before.len(),
        before[at].0@ == entry.0@,
    ensures
        distinct_keys(before.update(at, entry)),
        key_views(before.update(at, entry)) == key_views(before),
        map_of(before.update(at, entry)) == map_of(before).insert(entry.0@, entry.1@),
{
    let after = before.update(at, entry);
    assert forall|a: int, b: int| 0 <= a < b < after.len() implies (#[trigger] after[a]).0@ != (
    #[trigger] after[b]).0@ by {
        assert(before[a].0@ != before[b].0@);
    }
    assert(key_views(after) =~= key_views(before));
    assert(map_of(after) =~= map_of(before).insert(entry.0@, entry.1@)) by {
        assert forall|k: K::V| holds_key(after, k) == (holds_key(before, k) || k == entry.0@) by {
            if holds_key(after, k) {
                let j = position_of(after, k);
                assert(before[j].0@ == k);
            }
            if holds_key(before, k) {
                let j = position_of(before, k);
                assert(after[j].0@ == k);
            }
            if k == entry.0@ {
                assert(after[at].0@ == k);
            }
        }
        assert forall|k: K::V| holds_key(after, k) implies map_of(after)[k] == map_of(
            before,
        ).insert(entry.0@, entry.1@)[k] by {
            let j = position_of(after, k);
            lemma_position(after, j);
            if j != at {
                assert(before[j].0@ == k);
                lemma_position(before, j);
            }
        }
    }
}

/// A map in which no key occurs twice; the entries stand in the order in
/// which their keys first came.
#[derive(Debug)]
pub struct AssocMap<K: Key, V: View> {
    entries: Vec<(K, V)>,
}

/// A map from strings to strings.
pub type StringMap = AssocMap<String, String>;

impl<K: Key, V: View> View for AssocMap<K, V> {
    type V = Map<K::V, V::V>;

    closed spec fn view(&self) -> Map<K::V, V::V> {
        map_of(self.entries@)
    }
}

impl<K: Key, V: View> AssocMap<K, V> {
    #[verifier::type_invariant]
    spec fn distinct(&self) -> bool {
        distinct_keys(self.entries@)
    }

    /// The keys in the order in which they came.
    pub closed spec fn key_order(&self) -> Seq<K::V> {
        key_views(self.entries@)
    }

    /// The empty map.
    pub fn new() -> (map: Self)
        ensures
            map@ == Map::<K::V, V::V>::empty(),
            map.key_order() == Seq::<K::V>::empty(),
    {
        let map = AssocMap { entries: Vec::new() };
        assert(map@ =~= Map::<K::V, V::V>::empty());
        assert(map.key_order() =~= Seq::<K::V>::empty());
        map
    }

    /// The position of `key` among the entries, if it is there.
    fn find(&self, key: &K) -> (at: Option<usize>)
        ensures
            match at {
                Some(i) => i < self.entries@.len() && self.entries@[i as int].0@ == key@,
                None => !holds_key(self.entries@, key@),
            },
    {
        let mut i: usize = 0;
        while i < self.entries.len()
            invariant
                i <= self.entries@.len(),
                forall|j: int| 0 <= j < i ==> (#[trigger] self.entries@[j]).0@ != key@,
            decreases self.entries@.len() - i,
        {
            if self.entries[i].0.same(key) {
                return Some(i);
            }
            i += 1;
        }
        None
    }

    /// The value that stands under `key`, if there is one.
    pub fn lookup(&self, key: &K) -> (value: Option<&V>)
        ensures
            match value {
                Some(v) => self@.dom().contains(key@) && v@ == self@[key@],
                None => !self@.dom().contains(key@),
            },
    {
        proof {
            use_type_invariant(self);
        }
        match self.find(key) {
            Some(i) => {
                proof {
                    lemma_position(self.entries@, i as int);
                }
                Some(&self.entries[i].1)
            },
            None => None,
        }
    }

    /// The number of entries.
    pub fn len(&self) -> (n: usize)
        ensures
            self@.dom().finite(),
            n == self@.dom().len(),
            n == self.key_order().len(),
            self.key_order().no_duplicates(),
            self.key_order().to_set() == self@.dom(),
    {
        proof {
            use_type_invariant(self);
            lemma_keys(self.entries@);
        }
        self.entries.len()
    }

    /// Whether the map holds nothing.
    pub fn is_empty(&self) -> (yes: bool)
        ensures
            yes == (self@ == Map::<K::V, V::V>::empty()),
            yes == (self.key_order().len() == 0),
    {
        proof {
            use_type_invariant(self);
            lemma_keys(self.entries@);
            if self.entries@.len() == 0 {
                assert(self@ =~= Map::<K::V, V::V>::empty());
            }
        }
        self.entries.len() == 0
    }

    /// The key at a position of the order.
    pub fn key_at(&self, at: usize) -> (key: &K)
        requires
            at < self.key_order().len(),
        ensures
            key@ == self.key_order()[at as int],
    {
        &self.entries[at].0
    }

    /// The value under the key at a position of the order.
    pub fn value_at(&self, at: usize) -> (value: &V)
        requires
            at < self.key_order().len(),
        ensures
            self@.dom().contains(self.key_order()[at as int]),
            value@ == self@[self.key_order()[at as int]],
    {
        proof {
            use_type_invariant(self);
            lemma_position(self.entries@, at as int);
        }
        &self.entries[at].1
    }

    /// Puts `value` under `key` and gives back what stood there before. A
    /// new key goes to the end of the order; a key that was there keeps its
    /// place.
    pub fn insert(&mut self, key: K, value: V) -> (before: Option<V>)
        ensures
            final(self)@ == old(self)@.insert(key@, value@),
            match before {
                Some(v) => old(self)@.dom().contains(key@) && v@ == old(self)@[key@],
                None => !old(self)@.dom().contains(key@),
            },
            final(self).key_order() == (if old(self)@.dom().contains(key@) {
                old(self).key_order()
            } else {
                old(self).key_order().push(key@)
            }),
    {
        proof {
            use_type_invariant(&*self);
        }
        let ghost earlier = self.entries@;
        let found = self.find(&key);
        let mut entries: Vec<(K, V)> = Vec::new();
        core::mem::swap(&mut entries, &mut self.entries);
        match found {
            Some(i) => {
                proof {
                    lemma_position(earlier, i as int);
                    lemma_entry_replaced(earlier, i as int, (key, value));
                }
                let previous = entries.remove(i);
                entries.insert(i, (key, value));
                assert(entries@ == earlier.update(i as int, (key, value)));
                self.entries = entries;
                Some(previous.1)
            },
            None => {
                proof {
                    lemma_entry_added(earlier, (key, value));
                }
                entries.push((key, value));
                self.entries = entries;
                None
            },
        }
    }
}

impl<V: View> AssocMap<String, V> {
    /// The value that stands under the key of the given text, if there is
    /// one.
    pub fn get(&self, key: &str) -> (value: Option<&V>)
        ensures
            match value {
                Some(v) => self@.dom().contains(key@) && v@ == self@[key@],
                None => !self@.dom().contains(key@),
            },
    {
        let owned = key.to_string();
        self.lookup(&owned)
    }

    /// Whether a value stands under the key of the given text.
    pub fn contains_key(&self, key: &str) -> (yes: bool)
        ensures
            yes == self@.dom().contains(key@),
    {
        self.get(key).is_some()
    }

    /// The keys, in the order in which they came.
    pub fn keys(&self) -> (names: Vec<String>)
        ensures
            texts(names@) == self.key_order(),
    {
        let mut names: Vec<String> = Vec::new();
        let mut i: usize = 0;
        while i < self.entries.len()
            invariant
                i <= self.entries@.len(),
                names@.len() == i,
                texts(names@) == key_views(self.entries@).take(i as int),
            decreases self.entries@.len() - i,
        {
            let ghost before = names@;
            let name = self.entries[i].0.clone();
            names.push(name);
            assert(texts(names@) =~= key_views(self.entries@).take(i + 1)) by {
                assert forall|j: int| 0 <= j < i + 1 implies texts(names@)[j] == key_views(
                    self.entries@,
                ).take(i + 1)[j] by {
                    if j < i {
                        assert(texts(before)[j] == key_views(self.entries@).take(i as int)[j]);
                    }
                }
            }
            i += 1;
        }
        assert(key_views(self.entries@).take(self.entries@.len() as int) == key_views(
            self.entries@,
        ));
        names
    }
}

impl Clone for AssocMap<String, String> {
    fn clone(&self) -> (copy: Self)
        ensures
            copy@ == self@,
            copy.key_order() == self.key_order(),
    {
        proof {
            use_type_invariant(self);
        }
        let mut entries: Vec<(String, String)> = Vec::new();
        let mut i: usize = 0;
        while i < self.entries.len()
            invariant
                i <= self.entries@.len(),
                entries@.len() == i,
                forall|j: int|
                    0 <= j < i ==> (#[trigger] self.entries@[j]).0@ == entries@[j].0@
                        && self.entries@[j].1@ == entries@[j].1@,
            decreases self.entries@.len() - i,
        {
            let key = self.entries[i].0.clone();
            let value = self.entries[i].1.clone();
            entries.push((key, value));
            i += 1;
        }
        proof {
            lemma_same_entries(self.entries@, entries@);
        }
        AssocMap { entries }
    }
}

} // verus!
