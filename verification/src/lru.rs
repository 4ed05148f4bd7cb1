//! A bounded least-recently-used map from `u64` keys to `u8` values, kept in a
//! `hashlink::LruCache`. Its contents are modelled as the sequence of entries in
//! recency order: the front is the least recently used entry, the back the most
//! recently used one.

use vstd::prelude::*;
use hashlink::LruCache;

verus! {

/// The hasher that `LruCache` uses by default, carried along opaquely.
#[verifier::external_type_specification]
#[verifier::external_body]
pub struct ExDefaultHashBuilder(hashlink::DefaultHashBuilder);

/// `hashlink::LruCache`, opaque: its contents are known through `lru_entries`.
#[verifier::external_type_specification]
#[verifier::external_body]
#[verifier::reject_recursive_types(K)]
#[verifier::reject_recursive_types(V)]
#[verifier::reject_recursive_types(S)]
pub struct ExLruCache<K, V, S>(LruCache<K, V, S>);

/// The entries of a cache in recency order, least recently used first.
pub uninterp spec fn lru_entries(cache: LruCache<u64, u8>) -> Seq<(u64, u8)>;

/// The capacity that a cache was created with.
pub uninterp spec fn lru_capacity(cache: LruCache<u64, u8>) -> nat;

/// No key occurs twice among `entries`.
pub open spec fn keys_distinct(entries: Seq<(u64, u8)>) -> bool {
    forall|i: int, j: int|
        0 <= i < entries.len() && 0 <= j < entries.len() && i != j ==> #[trigger] entries[i].0
            != #[trigger] entries[j].0
}

/// Some entry has key `key`.
pub open spec fn has_key(entries: Seq<(u64, u8)>, key: u64) -> bool {
    exists|i: int| 0 <= i < entries.len() && #[trigger] entries[i].0 == key
}

/// The position of the entry with key `key` (meaningful when `has_key`).
pub open spec fn key_index(entries: Seq<(u64, u8)>, key: u64) -> int {
    choose|i: int| 0 <= i < entries.len() && #[trigger] entries[i].0 == key
}

/// The value stored under `key`, if any.
pub open spec fn lookup(entries: Seq<(u64, u8)>, key: u64) -> Option<u8> {
    if has_key(entries, key) {
        Some(entries[key_index(entries, key)].1)
    } else {
        None
    }
}

/// The entries after `key` is marked as most recently used.
pub open spec fn touched(entries: Seq<(u64, u8)>, key: u64) -> Seq<(u64, u8)> {
    if has_key(entries, key) {
        let i = key_index(entries, key);
        entries.remove(i).push(entries[i])
    } else {
        entries
    }
}

/// The entries after `key` is stored with `value` as the most recently used entry,
/// the least recently used entry being evicted when more than `capacity` remain.
pub open spec fn inserted(entries: Seq<(u64, u8)>, key: u64, value: u8, capacity: nat) -> Seq<(u64, u8)> {
    let grown = if has_key(entries, key) {
        entries.remove(key_index(entries, key)).push((key, value))
    } else {
        entries.push((key, value))
    };
    if grown.len() > capacity {
        grown.drop_first()
    } else {
        grown
    }
}

/// The entries after the entry with key `key`, if any, is dropped.
pub open spec fn removed(entries: Seq<(u64, u8)>, key: u64) -> Seq<(u64, u8)> {
    if has_key(entries, key) {
        entries.remove(key_index(entries, key))
    } else {
        entries
    }
}

/// Calls `LruCache::new`: an empty cache with the given capacity.
#[verifier::external_body]
fn lru_new(capacity: usize) -> (r: LruCache<u64, u8>)
    ensures
        lru_entries(r) == Seq::<(u64, u8)>::empty(),
        lru_capacity(r) == capacity,
{
    LruCache::new(capacity)
}

/// Calls `LruCache::get`: returns the value under `key` and moves its entry to the
/// back of the recency order; a missing key changes nothing.
#[verifier::external_body]
fn lru_get(cache: &mut LruCache<u64, u8>, key: u64) -> (r: Option<u8>)
    requires
        keys_distinct(lru_entries(*old(cache))),
    ensures
        r == lookup(lru_entries(*old(cache)), key),
        lru_entries(*final(cache)) == touched(lru_entries(*old(cache)), key),
        lru_capacity(*final(cache)) == lru_capacity(*old(cache)),
{
    cache.get(&key).copied()
}

/// Calls `LruCache::insert`: stores `value` under `key` as the most recently used
/// entry, returns the value it replaced, and evicts the least recently used entry
/// when the cache then holds more entries than its capacity.
#[verifier::external_body]
fn lru_insert(cache: &mut LruCache<u64, u8>, key: u64, value: u8) -> (r: Option<u8>)
    requires
        keys_distinct(lru_entries(*old(cache))),
    ensures
        r == lookup(lru_entries(*old(cache)), key),
        lru_entries(*final(cache)) == inserted(
            lru_entries(*old(cache)),
            key,
            value,
            lru_capacity(*old(cache)),
        ),
        lru_capacity(*final(cache)) == lru_capacity(*old(cache)),
{
    cache.insert(key, value)
}

/// Calls `LruCache::remove`: drops the entry under `key`, if any, and returns its value;
/// the other entries keep their order.
#[verifier::external_body]
fn lru_remove(cache: &mut LruCache<u64, u8>, key: u64) -> (r: Option<u8>)
    requires
        keys_distinct(lru_entries(*old(cache))),
    ensures
        r == lookup(lru_entries(*old(cache)), key),
        lru_entries(*final(cache)) == removed(lru_entries(*old(cache)), key),
        lru_capacity(*final(cache)) == lru_capacity(*old(cache)),
{
    cache.remove(&key)
}

/// Calls `LruCache::clear`: drops every entry.
#[verifier::external_body]
fn lru_clear(cache: &mut LruCache<u64, u8>)
    ensures
        lru_entries(*final(cache)) == Seq::<(u64, u8)>::empty(),
        lru_capacity(*final(cache)) == lru_capacity(*old(cache)),
{
    cache.clear()
}

/// Marking an entry as recently used keeps the keys distinct and the length unchanged.
pub proof fn lemma_touched_wf(entries: Seq<(u64, u8)>, key: u64)
    requires
        keys_distinct(entries),
    ensures
        keys_distinct(touched(entries, key)),
        touched(entries, key).len() == entries.len(),
{
    if has_key(entries, key) {
        let i = key_index(entries, key);
        let t = touched(entries, key);
        let r = entries.remove(i);
        assert forall|a: int, b: int|
            0 <= a < t.len() && 0 <= b < t.len() && a != b implies #[trigger] t[a].0 != #[trigger] t[b].0 by {
            let ia = if a == t.len() - 1 { i } else if a < i { a } else { a + 1 };
            let ib = if b == t.len() - 1 { i } else if b < i { b } else { b + 1 };
            assert(t[a] == entries[ia]);
            assert(t[b] == entries[ib]);
        }
    }
}

/// Storing an entry keeps the keys distinct, respects the capacity, and makes the
/// stored value the one found under its key.
pub proof fn lemma_inserted_wf(entries: Seq<(u64, u8)>, key: u64, value: u8, capacity: nat)
    requires
        keys_distinct(entries),
        entries.len() <= capacity,
    ensures
        keys_distinct(inserted(entries, key, value, capacity)),
        inserted(entries, key, value, capacity).len() <= capacity,
        capacity >= 1 ==> lookup(inserted(entries, key, value, capacity), key) == Some(value),
{
    let grown = if has_key(entries, key) {
        entries.remove(key_index(entries, key)).push((key, value))
    } else {
        entries.push((key, value))
    };
    assert(keys_distinct(grown)) by {
        if has_key(entries, key) {
            let i = key_index(entries, key);
            assert forall|a: int, b: int|
                0 <= a < grown.len() && 0 <= b < grown.len() && a != b implies #[trigger] grown[a].0
                    != #[trigger] grown[b].0 by {
                let ia = if a == grown.len() - 1 { i } else if a < i { a } else { a + 1 };
                let ib = if b == grown.len() - 1 { i } else if b < i { b } else { b + 1 };
                assert(grown[a].0 == entries[ia].0);
                assert(grown[b].0 == entries[ib].0);
            }
        } else {
            assert forall|a: int, b: int|
                0 <= a < grown.len() && 0 <= b < grown.len() && a != b implies #[trigger] grown[a].0
                    != #[trigger] grown[b].0 by {
                if a < entries.len() && b < entries.len() {
                    assert(grown[a] == entries[a]);
                    assert(grown[b] == entries[b]);
                } else if a < entries.len() {
                    assert(grown[a] == entries[a]);
                } else {
                    assert(grown[b] == entries[b]);
                }
            }
        }
    }
    let ins = inserted(entries, key, value, capacity);
    assert(keys_distinct(ins)) by {
        if grown.len() > capacity {
            assert forall|a: int, b: int|
                0 <= a < ins.len() && 0 <= b < ins.len() && a != b implies #[trigger] ins[a].0
                    != #[trigger] ins[b].0 by {
                assert(ins[a] == grown[a + 1]);
                assert(ins[b] == grown[b + 1]);
            }
        }
    }
    if capacity >= 1 {
        assert(ins.len() >= 1 && ins[ins.len() - 1] == (key, value));
        lemma_lookup_at(ins, ins.len() - 1);
    }
}

/// In a sequence with distinct keys, the value found under the key at position `i`
/// is the value at position `i`.
pub proof fn lemma_lookup_at(entries: Seq<(u64, u8)>, i: int)
    requires
        keys_distinct(entries),
        0 <= i < entries.len(),
    ensures
        has_key(entries, entries[i].0),
        key_index(entries, entries[i].0) == i,
        lookup(entries, entries[i].0) == Some(entries[i].1),
{
    let k = entries[i].0;
    assert(has_key(entries, k));
    let j = key_index(entries, k);
    assert(entries[j].0 == k);
}

/// Dropping an entry keeps the keys distinct and leaves nothing under its key.
pub proof fn lemma_removed_wf(entries: Seq<(u64, u8)>, key: u64)
    requires
        keys_distinct(entries),
    ensures
        keys_distinct(removed(entries, key)),
        removed(entries, key).len() <= entries.len(),
        lookup(removed(entries, key), key) == None::<u8>,
{
    let r = removed(entries, key);
    if has_key(entries, key) {
        let i = key_index(entries, key);
        assert forall|a: int, b: int|
            0 <= a < r.len() && 0 <= b < r.len() && a != b implies #[trigger] r[a].0 != #[trigger] r[b].0 by {
            let ia = if a < i { a } else { a + 1 };
            let ib = if b < i { b } else { b + 1 };
            assert(r[a] == entries[ia]);
            assert(r[b] == entries[ib]);
        }
        if has_key(r, key) {
            let j = key_index(r, key);
            let ij = if j < i { j } else { j + 1 };
            assert(r[j] == entries[ij]);
        }
    }
}

/// Marking an entry as recently used changes no value found under any key.
pub proof fn lemma_touched_lookup(entries: Seq<(u64, u8)>, key: u64, other: u64)
    requires
        keys_distinct(entries),
    ensures
        lookup(touched(entries, key), other) == lookup(entries, other),
{
    lemma_touched_wf(entries, key);
    let t = touched(entries, key);
    if has_key(entries, key) {
        let i = key_index(entries, key);
        if has_key(entries, other) {
            let j = key_index(entries, other);
            let tj = if j == i { t.len() - 1 } else if j < i { j } else { j - 1 };
            assert(t[tj] == entries[j]);
            lemma_lookup_at(t, tj);
            lemma_lookup_at(entries, j);
        } else if has_key(t, other) {
            let j = key_index(t, other);
            let ej = if j == t.len() - 1 { i } else if j < i { j } else { j + 1 };
            assert(t[j] == entries[ej]);
        }
    }
}

/// Marking an entry as recently used keeps the same keys present.
pub proof fn lemma_touched_has_key(entries: Seq<(u64, u8)>, key: u64, other: u64)
    requires
        keys_distinct(entries),
    ensures
        has_key(touched(entries, key), other) == has_key(entries, other),
{
    lemma_touched_lookup(entries, key, other);
}

/// When storing an entry evicts nothing (the map is not full, or the key is already
/// present), the values under all other keys stay as they were.
pub proof fn lemma_inserted_lookup_other(
    entries: Seq<(u64, u8)>,
    key: u64,
    value: u8,
    capacity: nat,
    other: u64,
)
    requires
        keys_distinct(entries),
        entries.len() <= capacity,
        entries.len() < capacity || has_key(entries, key),
        other != key,
    ensures
        lookup(inserted(entries, key, value, capacity), other) == lookup(entries, other),
{
    lemma_inserted_wf(entries, key, value, capacity);
    let ins = inserted(entries, key, value, capacity);
    if has_key(entries, key) {
        let i = key_index(entries, key);
        assert(ins =~= entries.remove(i).push((key, value)));
        if has_key(entries, other) {
            let j = key_index(entries, other);
            assert(j != i);
            let tj = if j < i { j } else { j - 1 };
            assert(ins[tj] == entries[j]);
            lemma_lookup_at(ins, tj);
            lemma_lookup_at(entries, j);
        } else if has_key(ins, other) {
            let j = key_index(ins, other);
            let ej = if j == ins.len() - 1 { i } else if j < i { j } else { j + 1 };
            assert(ins[j].0 == entries[ej].0);
        }
    } else {
        assert(ins =~= entries.push((key, value)));
        if has_key(entries, other) {
            let j = key_index(entries, other);
            assert(ins[j] == entries[j]);
            lemma_lookup_at(ins, j);
            lemma_lookup_at(entries, j);
        } else if has_key(ins, other) {
            let j = key_index(ins, other);
            assert(j < entries.len());
            assert(ins[j] == entries[j]);
        }
    }
}

/// A bounded map that forgets its least recently used entry when it overflows.
pub struct LruMap {
    cache: LruCache<u64, u8>,
}

impl View for LruMap {
    type V = Seq<(u64, u8)>;

    /// The entries in recency order, least recently used first.
    closed spec fn view(&self) -> Seq<(u64, u8)> {
        lru_entries(self.cache)
    }
}

impl LruMap {
    /// The most entries the map holds.
    pub closed spec fn capacity(&self) -> nat {
        lru_capacity(self.cache)
    }

    /// Keys are distinct and the capacity is respected.
    pub open spec fn wf(&self) -> bool {
        keys_distinct(self@) && self@.len() <= self.capacity()
    }

    /// The value stored under `key`, if any.
    pub open spec fn spec_lookup(&self, key: u64) -> Option<u8> {
        lookup(self@, key)
    }

    /// An empty map holding at most `capacity` entries.
    pub fn new(capacity: usize) -> (r: Self)
        ensures
            r.wf(),
            r@ == Seq::<(u64, u8)>::empty(),
            r.capacity() == capacity,
    {
        LruMap { cache: lru_new(capacity) }
    }

    /// Looks `key` up and marks its entry as most recently used.
    pub fn get(&mut self, key: u64) -> (r: Option<u8>)
        requires
            old(self).wf(),
        ensures
            final(self).wf(),
            r == lookup(old(self)@, key),
            final(self)@ == touched(old(self)@, key),
            final(self).capacity() == old(self).capacity(),
            forall|k: u64| #[trigger] lookup(final(self)@, k) == lookup(old(self)@, k),
    {
        proof {
            lemma_touched_wf(self@, key);
            assert forall|k: u64| #[trigger] lookup(touched(self@, key), k) == lookup(self@, k) by {
                lemma_touched_lookup(self@, key, k);
            }
        }
        lru_get(&mut self.cache, key)
    }

    /// Stores `value` under `key` as the most recently used entry, forgetting the least
    /// recently used one when the map would exceed its capacity. Returns the replaced value.
    pub fn insert(&mut self, key: u64, value: u8) -> (r: Option<u8>)
        requires
            old(self).wf(),
        ensures
            final(self).wf(),
            r == lookup(old(self)@, key),
            final(self)@ == inserted(old(self)@, key, value, old(self).capacity()),
            final(self).capacity() == old(self).capacity(),
            old(self).capacity() >= 1 ==> lookup(final(self)@, key) == Some(value),
    {
        proof {
            lemma_inserted_wf(self@, key, value, self.capacity());
        }
        lru_insert(&mut self.cache, key, value)
    }

    /// Forgets the entry under `key`, if any, and returns its value.
    pub fn remove(&mut self, key: u64) -> (r: Option<u8>)
        requires
            old(self).wf(),
        ensures
            final(self).wf(),
            r == lookup(old(self)@, key),
            final(self)@ == removed(old(self)@, key),
            final(self).capacity() == old(self).capacity(),
            lookup(final(self)@, key) == None::<u8>,
    {
        proof {
            lemma_removed_wf(self@, key);
        }
        lru_remove(&mut self.cache, key)
    }

    /// Forgets every entry.
    pub fn clear(&mut self)
        requires
            old(self).wf(),
        ensures
            final(self).wf(),
            final(self)@ == Seq::<(u64, u8)>::empty(),
            final(self).capacity() == old(self).capacity(),
    {
        lru_clear(&mut self.cache)
    }
}

} // verus!
