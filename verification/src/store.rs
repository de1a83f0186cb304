//! The collections and the random source that the cacher keeps its state
//! in: FNV hash sets and maps, a time-limited LRU cache of challenge
//! numbers, and the thread-local random number generator.
//!
//! Each item here is trusted: its contract states what the outside
//! source shows of the call that its body makes.
use crate::addr::{AddrKey, OrdKey};
use fnv::{FnvHashMap, FnvHashSet, FnvHasher};
use lru_time_cache::LruCache;
use std::hash::BuildHasherDefault;
use std::time::Duration;
use vstd::prelude::*;

verus! {

#[verifier::external_type_specification]
#[verifier::external_body]
pub struct ExFnvHasher(FnvHasher);

#[verifier::external_type_specification]
#[verifier::external_body]
#[verifier::reject_recursive_types(H)]
pub struct ExBuildHasherDefault<H>(BuildHasherDefault<H>);

#[verifier::external_type_specification]
#[verifier::external_body]
#[verifier::reject_recursive_types(Key)]
#[verifier::reject_recursive_types(Value)]
pub struct ExLruCache<Key, Value>(LruCache<Key, Value>);

/// The entries that a cache of challenge numbers holds, each a number and
/// the time it was handed out: those inserted and neither removed nor
/// purged yet, expired or not.
pub uninterp spec fn lru_entries(c: LruCache<OrdKey, (i32, u64)>) -> Map<OrdKey, (i32, u64)>;

/// The capacity that a cache of challenge numbers was made with.
pub uninterp spec fn lru_capacity(c: LruCache<OrdKey, (i32, u64)>) -> nat;

/// The time to live, in milliseconds, that a cache of challenge numbers was
/// made with.
pub uninterp spec fn lru_ttl_millis(c: LruCache<OrdKey, (i32, u64)>) -> nat;

/// The greatest time to live of a cache of challenge numbers, in
/// milliseconds (about 31 years).
///
/// The cache adds its time to live to `Instant`s of the monotonic clock,
/// which count from about the start of the machine; that addition panics
/// where it leaves the range of `Instant`. With a time to live up to this
/// bound, it would take an `Instant` hundreds of millions of years after
/// the machine started.
pub const MAX_TTL_MILLIS: u64 = 1_000_000_000_000;

/// A new, empty FNV hash set.
///
/// Calls `Default::default` of `std::collections::HashSet` with the FNV
/// hasher of the `fnv` crate; the set is empty.
#[verifier::external_body]
pub(crate) fn fnv_set_new() -> (s: FnvHashSet<AddrKey>)
    ensures
        s@ == Set::<AddrKey>::empty(),
{
    FnvHashSet::default()
}

/// Adds `k` to the set.
///
/// Calls `HashSet::insert`; the set then holds `k` besides what it held,
/// and the call returns whether `k` was new.
#[verifier::external_body]
pub(crate) fn fnv_set_insert(s: &mut FnvHashSet<AddrKey>, k: AddrKey) -> (added: bool)
    ensures
        final(s)@ == old(s)@.insert(k),
        added == !old(s)@.contains(k),
{
    s.insert(k)
}

/// Whether the set holds `k`.
///
/// Calls `HashSet::contains`.
#[verifier::external_body]
pub(crate) fn fnv_set_contains(s: &FnvHashSet<AddrKey>, k: &AddrKey) -> (b: bool)
    ensures
        b == s@.contains(*k),
{
    s.contains(k)
}




/// A new, empty FNV hash map of clients to times.
///
/// Calls `Default::default` of `std::collections::HashMap` with the FNV
/// hasher of the `fnv` crate; the map is empty.
#[verifier::external_body]
pub(crate) fn fnv_clients_new() -> (m: FnvHashMap<AddrKey, u64>)
    ensures
        m@.dom() == Set::<AddrKey>::empty(),
{
    FnvHashMap::default()
}

/// Maps client `k` to time `t`.
///
/// Calls `HashMap::insert`, which replaces the time of a client that the
/// map holds.
#[verifier::external_body]
pub(crate) fn fnv_clients_insert(m: &mut FnvHashMap<AddrKey, u64>, k: AddrKey, t: u64)
    ensures
        final(m)@ == old(m)@.insert(k, t),
{
    m.insert(k, t);
}

/// The number of clients in the map.
///
/// Calls `HashMap::len`, the number of keys that the map holds.
#[verifier::external_body]
pub(crate) fn fnv_clients_len(m: &FnvHashMap<AddrKey, u64>) -> (n: usize)
    ensures
        n == m@.dom().len(),
{
    m.len()
}

/// The clients of the map and their times, each client once, in the map's
/// own order.
///
/// Consumes the map by `HashMap::into_iter` and collects what it yields,
/// which is every entry exactly once in an unspecified order.
#[verifier::external_body]
pub(crate) fn fnv_clients_into_vec(m: FnvHashMap<AddrKey, u64>) -> (v: Vec<(AddrKey, u64)>)
    ensures
        v@.map_values(|e: (AddrKey, u64)| e.0).no_duplicates(),
        forall|i: int|
            #![trigger v@[i]]
            0 <= i < v@.len() ==> m@.contains_key(v@[i].0) && m@[v@[i].0] == v@[i].1,
        forall|k: AddrKey|
            #![trigger m@.contains_key(k)]
            m@.contains_key(k) ==> exists|i: int| #![trigger v@[i]] 0 <= i < v@.len() && v@[i].0 == k,
{
    m.into_iter().collect()
}

/// A new, empty FNV hash map.
///
/// Calls `Default::default` of `std::collections::HashMap` with the FNV
/// hasher of the `fnv` crate; the map is empty.
#[verifier::external_body]
pub(crate) fn fnv_map_new<V>() -> (m: FnvHashMap<u8, V>)
    ensures
        m@.dom() == Set::<u8>::empty(),
{
    FnvHashMap::default()
}

/// Maps `k` to `v`, giving back the value that `k` had, if any.
///
/// Calls `HashMap::insert`.
#[verifier::external_body]
pub(crate) fn fnv_map_insert<V>(m: &mut FnvHashMap<u8, V>, k: u8, v: V) -> (prev: Option<V>)
    ensures
        final(m)@ == old(m)@.insert(k, v),
        prev == (if old(m)@.contains_key(k) {
            Some(old(m)@[k])
        } else {
            None
        }),
{
    m.insert(k, v)
}

/// The value of `k`, if any.
///
/// Calls `HashMap::get`.
#[verifier::external_body]
pub(crate) fn fnv_map_get<V>(m: &FnvHashMap<u8, V>, k: u8) -> (r: Option<&V>)
    ensures
        r == (if m@.contains_key(k) {
            Some(&m@[k])
        } else {
            None
        }),
{
    m.get(&k)
}

/// A mutable reference to the value of `k`, which the map holds.
///
/// Calls `HashMap::get_mut` and unwraps its result, which is `Some` for a
/// key that the map holds.
#[verifier::external_body]
pub(crate) fn fnv_map_get_mut<V>(m: &mut FnvHashMap<u8, V>, k: u8) -> (r: &mut V)
    requires
        old(m)@.contains_key(k),
    ensures
        *r == old(m)@[k],
        final(m)@ == old(m)@.insert(k, *final(r)),
{
    m.get_mut(&k).unwrap()
}

/// Empties the map.
///
/// Calls `HashMap::clear`.
#[verifier::external_body]
pub(crate) fn fnv_map_clear<V>(m: &mut FnvHashMap<u8, V>)
    ensures
        final(m)@.dom() == Set::<u8>::empty(),
{
    m.clear()
}

/// A new, empty cache of challenge numbers whose entries expire after
/// `ttl_millis` milliseconds and which holds at most `capacity` entries.
///
/// Calls `LruCache::with_expiry_duration_and_capacity`, which starts with
/// no entries and keeps the capacity and the time to live. A capacity of
/// zero would make the first insertion panic, and a time to live beyond
/// [`MAX_TTL_MILLIS`] could make the cache's clock arithmetic overflow, so
/// both are left out.
#[verifier::external_body]
pub(crate) fn lru_new(ttl_millis: u64, capacity: usize) -> (c: LruCache<OrdKey, (i32, u64)>)
    requires
        capacity > 0,
        ttl_millis <= MAX_TTL_MILLIS,
    ensures
        lru_entries(c).dom() == Set::<OrdKey>::empty(),
        lru_capacity(c) == capacity,
        lru_ttl_millis(c) == ttl_millis,
{
    LruCache::with_expiry_duration_and_capacity(Duration::from_millis(ttl_millis), capacity)
}

/// Stores `v` for `k`, giving back the value that `k` had, if any.
///
/// Calls `LruCache::insert`. Where `k` is present, only its value changes.
/// Where it is not, the cache first drops expired entries and, if full,
/// its least recently used ones; which entries go depends on the time.
/// Either way `k` then maps to `v`, every other entry that stays keeps its
/// value, and a cache that held no more entries than its capacity still
/// does. The time to live is bounded as [`lru_new`] bounds it, so that the
/// expiry check cannot overflow.
#[verifier::external_body]
pub(crate) fn lru_insert(c: &mut LruCache<OrdKey, (i32, u64)>, k: OrdKey, v: (i32, u64)) -> (prev: Option<(i32, u64)>)
    requires
        lru_capacity(*old(c)) > 0,
        lru_ttl_millis(*old(c)) <= MAX_TTL_MILLIS,
        lru_entries(*old(c)).dom().finite(),
        lru_entries(*old(c)).len() <= lru_capacity(*old(c)),
    ensures
        lru_capacity(*final(c)) == lru_capacity(*old(c)),
        lru_ttl_millis(*final(c)) == lru_ttl_millis(*old(c)),
        lru_entries(*final(c)).len() <= lru_capacity(*final(c)),
        lru_entries(*final(c)).contains_key(k),
        lru_entries(*final(c))[k] == v,
        forall|j: OrdKey|
            #![trigger lru_entries(*final(c)).contains_key(j)]
            j != k && lru_entries(*final(c)).contains_key(j) ==> lru_entries(
                *old(c),
            ).contains_key(j) && lru_entries(*final(c))[j] == lru_entries(*old(c))[j],
        lru_entries(*old(c)).contains_key(k) ==> lru_entries(*final(c)) == lru_entries(
            *old(c),
        ).insert(k, v),
        prev == (if lru_entries(*old(c)).contains_key(k) {
            Some(lru_entries(*old(c))[k])
        } else {
            None
        }),
{
    c.insert(k, v)
}

/// Takes the value of `k` out of the cache, if the cache holds it.
///
/// Calls `LruCache::remove`, which removes the entry whether or not it has
/// expired and drops nothing else.
#[verifier::external_body]
pub(crate) fn lru_remove(c: &mut LruCache<OrdKey, (i32, u64)>, k: &OrdKey) -> (r: Option<(i32, u64)>)
    ensures
        lru_capacity(*final(c)) == lru_capacity(*old(c)),
        lru_ttl_millis(*final(c)) == lru_ttl_millis(*old(c)),
        lru_entries(*final(c)) == lru_entries(*old(c)).remove(*k),
        r == (if lru_entries(*old(c)).contains_key(*k) {
            Some(lru_entries(*old(c))[*k])
        } else {
            None
        }),
{
    c.remove(k)
}

/// A random `i32` from the thread-local generator.
///
/// Calls `rand::random::<i32>()`; any value can come back.
#[verifier::external_body]
pub(crate) fn random_i32() -> (n: i32) {
    rand::random::<i32>()
}

} // verus!
