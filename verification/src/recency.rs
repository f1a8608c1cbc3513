//! The recency-ordered store behind the energy cache: `lru::LruCache`, seen
//! through a sequence of its entries.
//!
//! Nothing in this file is proved. Each function states what the `lru` crate
//! does, and the rest of the crate is verified against these statements.

use crate::energy::EnergyData;
use lru::LruCache;
use std::num::NonZeroUsize;
use vstd::prelude::*;

verus! {

/// `lru::LruCache`, of which nothing is known but what the functions below
/// state.
#[verifier::external_type_specification]
#[verifier::external_body]
#[verifier::reject_recursive_types(K)]
#[verifier::reject_recursive_types(V)]
#[verifier::reject_recursive_types(S)]
pub struct ExLruCache<K, V, S>(LruCache<K, V, S>);

/// `lru::DefaultHasher`, the hasher that a cache is made with where none is
/// named. It is carried along and never looked into.
#[verifier::external_type_specification]
#[verifier::external_body]
pub struct ExLruHasher(lru::DefaultHasher);

/// Largest capacity a cache is created with. `LruCache::new` reserves its
/// hash table for the whole capacity at once; below this bound the size of
/// that table is computed without overflow on every target.
pub const MAX_CAPACITY: usize = 1048576;

/// The entries of a cache as `LruCache::iter` walks them: most recently used
/// first, least recently used last.
pub uninterp spec fn lru_entries(cache: LruCache<u64, EnergyData>) -> Seq<(u64, EnergyData)>;

/// The capacity a cache was created with, as `LruCache::cap` reports it.
pub uninterp spec fn lru_cap(cache: LruCache<u64, EnergyData>) -> nat;

/// Entry `i` exists and is stored under `key`.
pub open spec fn key_at(entries: Seq<(u64, EnergyData)>, key: u64, i: int) -> bool {
    0 <= i < entries.len() && entries[i].0 == key
}

/// Some entry is stored under `key`.
pub open spec fn has_key(entries: Seq<(u64, EnergyData)>, key: u64) -> bool {
    exists|i: int| key_at(entries, key, i)
}

/// `LruCache::new`: an empty cache of the given capacity.
#[verifier::external_body]
pub(crate) fn lru_new(cap: usize) -> (cache: LruCache<u64, EnergyData>)
    requires
        0 < cap <= MAX_CAPACITY,
    ensures
        lru_entries(cache) == Seq::<(u64, EnergyData)>::empty(),
        lru_cap(cache) == cap,
{
    LruCache::new(NonZeroUsize::new(cap).unwrap())
}

/// `LruCache::len`: the number of entries held.
#[verifier::external_body]
pub(crate) fn lru_len(cache: &LruCache<u64, EnergyData>) -> (n: usize)
    ensures
        n == lru_entries(*cache).len(),
{
    cache.len()
}

/// `LruCache::cap`: the capacity the cache was created with.
#[verifier::external_body]
pub(crate) fn lru_capacity(cache: &LruCache<u64, EnergyData>) -> (n: usize)
    ensures
        n == lru_cap(*cache),
        n > 0,
{
    cache.cap().get()
}

/// `LruCache::peek`: a copy of the value under `key`, if there is one. The
/// order of the entries is left as it is.
#[verifier::external_body]
pub(crate) fn lru_peek(cache: &LruCache<u64, EnergyData>, key: u64) -> (found: Option<EnergyData>)
    ensures
        found is Some <==> has_key(lru_entries(*cache), key),
        found matches Some(value) ==> exists|i: int|
            #[trigger] key_at(lru_entries(*cache), key, i) && value == lru_entries(*cache)[i].1,
{
    cache.peek(&key).copied()
}

/// `LruCache::peek_lru`: a copy of the least recently used value, if the
/// cache is not empty. The order of the entries is left as it is.
#[verifier::external_body]
pub(crate) fn lru_peek_lru(cache: &LruCache<u64, EnergyData>) -> (oldest: Option<EnergyData>)
    ensures
        lru_entries(*cache).len() == 0 ==> oldest is None,
        lru_entries(*cache).len() > 0 ==> oldest == Some(lru_entries(*cache).last().1),
{
    cache.peek_lru().map(|(_, value)| *value)
}

/// `LruCache::get`: a copy of the value under `key`, if there is one; its
/// entry becomes the most recently used.
#[verifier::external_body]
pub(crate) fn lru_get(cache: &mut LruCache<u64, EnergyData>, key: u64) -> (found: Option<
    EnergyData,
>)
    ensures
        lru_cap(*final(cache)) == lru_cap(*old(cache)),
        found is Some <==> has_key(lru_entries(*old(cache)), key),
        found matches Some(value) ==> exists|i: int|
            #[trigger] key_at(lru_entries(*old(cache)), key, i) && value == lru_entries(
                *old(cache),
            )[i].1 && lru_entries(*final(cache)) == seq![(key, value)] + lru_entries(
                *old(cache),
            ).remove(i),
        found is None ==> lru_entries(*final(cache)) == lru_entries(*old(cache)),
{
    cache.get(&key).copied()
}

/// `LruCache::get_mut`: the value under `key`, if there is one, for writing;
/// its entry becomes the most recently used and holds whatever is written.
#[verifier::external_body]
pub(crate) fn lru_get_mut(cache: &mut LruCache<u64, EnergyData>, key: u64) -> (slot: Option<
    &mut EnergyData,
>)
    ensures
        lru_cap(*final(cache)) == lru_cap(*old(cache)),
        slot is Some <==> has_key(lru_entries(*old(cache)), key),
        slot matches Some(value) ==> exists|i: int|
            #[trigger] key_at(lru_entries(*old(cache)), key, i) && *value == lru_entries(
                *old(cache),
            )[i].1 && lru_entries(*final(cache)) == seq![(key, *final(value))] + lru_entries(
                *old(cache),
            ).remove(i),
        slot is None ==> lru_entries(*final(cache)) == lru_entries(*old(cache)),
{
    cache.get_mut(&key)
}

/// `LruCache::peek_mut`: the value under `key`, if there is one, for
/// writing; the entry keeps its place and holds whatever is written.
#[verifier::external_body]
pub(crate) fn lru_peek_mut(cache: &mut LruCache<u64, EnergyData>, key: u64) -> (slot: Option<
    &mut EnergyData,
>)
    ensures
        lru_cap(*final(cache)) == lru_cap(*old(cache)),
        slot is Some <==> has_key(lru_entries(*old(cache)), key),
        slot matches Some(value) ==> exists|i: int|
            #[trigger] key_at(lru_entries(*old(cache)), key, i) && *value == lru_entries(
                *old(cache),
            )[i].1 && lru_entries(*final(cache)) == lru_entries(*old(cache)).update(
                i,
                (key, *final(value)),
            ),
        slot is None ==> lru_entries(*final(cache)) == lru_entries(*old(cache)),
{
    cache.peek_mut(&key)
}

/// `LruCache::push`: stores `value` under `key` as the most recently used
/// entry. An entry already under `key` is replaced and handed back; failing
/// that, a full cache drops its least recently used entry and hands that
/// back; otherwise nothing leaves.
#[verifier::external_body]
pub(crate) fn lru_push(cache: &mut LruCache<u64, EnergyData>, key: u64, value: EnergyData) -> (out:
    Option<(u64, EnergyData)>)
    ensures
        lru_cap(*final(cache)) == lru_cap(*old(cache)),
        has_key(lru_entries(*old(cache)), key) ==> exists|i: int|
            #[trigger] key_at(lru_entries(*old(cache)), key, i) && out == Some(
                lru_entries(*old(cache))[i],
            ) && lru_entries(*final(cache)) == seq![(key, value)] + lru_entries(
                *old(cache),
            ).remove(i),
        !has_key(lru_entries(*old(cache)), key) && lru_entries(*old(cache)).len() == lru_cap(
            *old(cache),
        ) ==> out == Some(lru_entries(*old(cache)).last()) && lru_entries(*final(cache))
            == seq![(key, value)] + lru_entries(*old(cache)).drop_last(),
        !has_key(lru_entries(*old(cache)), key) && lru_entries(*old(cache)).len() != lru_cap(
            *old(cache),
        ) ==> out is None && lru_entries(*final(cache)) == seq![(key, value)] + lru_entries(
            *old(cache),
        ),
{
    cache.push(key, value)
}

/// `LruCache::iter`: copies of all values, most recently used first.
#[verifier::external_body]
pub(crate) fn lru_values(cache: &LruCache<u64, EnergyData>) -> (values: Vec<EnergyData>)
    ensures
        values@.len() == lru_entries(*cache).len(),
        forall|i: int| 0 <= i < values@.len() ==> values@[i] == (#[trigger] lru_entries(*cache)[i]).1,
{
    cache.iter().map(|(_, value)| *value).collect()
}

} // verus!
