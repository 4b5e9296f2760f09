//! Caches whose entries expire, kept by `lru_time_cache`. A cache holds
//! byte strings by name: immutable data as it is, and public ids in their
//! canonical form.

use crate::filter::MAX_EXPIRY_SECONDS;
use crate::id::PublicId;
use crate::wire::{
    decode_public_id, encode_public_id, lemma_public_id_wire_injective, wire_public_id,
};
use lru_time_cache::LruCache;
use vstd::prelude::*;

verus! {

/// Makes `LruCache` a type that contracts can speak of. What a cache holds
/// is known only through `cached_bytes`.
#[verifier::external_type_specification]
#[verifier::external_body]
#[verifier::reject_recursive_types(Key)]
#[verifier::reject_recursive_types(Value)]
pub struct ExLruCache<Key, Value>(LruCache<Key, Value>);

/// The byte strings that a cache holds by name, expired ones that it has
/// not yet dropped included.
pub uninterp spec fn cached_bytes(cache: LruCache<[u8; 64], Vec<u8>>) -> Map<Seq<u8>, Seq<u8>>;

/// The number of entries that a cache is limited to.
pub uninterp spec fn cache_capacity(cache: LruCache<[u8; 64], Vec<u8>>) -> nat;

/// Calls `LruCache::with_expiry_duration` with a duration of `seconds`
/// seconds. The new cache holds nothing and is limited to as many entries
/// as a `usize` counts.
#[verifier::external_body]
pub(crate) fn cache_new(seconds: i64) -> (cache: LruCache<[u8; 64], Vec<u8>>)
    requires
        0 <= seconds <= MAX_EXPIRY_SECONDS,
    ensures
        cached_bytes(cache).dom() == Set::<Seq<u8>>::empty(),
        cache_capacity(cache) == usize::MAX,
{
    LruCache::with_expiry_duration(time::Duration::seconds(seconds))
}

/// Calls `LruCache::get`. It first drops what has expired, which depends on
/// the clock: afterwards the cache holds only what it held before, and the
/// answer is what it then holds under `name`.
#[verifier::external_body]
pub(crate) fn cache_get(cache: &mut LruCache<[u8; 64], Vec<u8>>, name: &[u8; 64]) -> (found: Option<
    Vec<u8>,
>)
    ensures
        cache_capacity(*final(cache)) == cache_capacity(*old(cache)),
        cached_bytes(*final(cache)).submap_of(cached_bytes(*old(cache))),
        match found {
            Some(value) => cached_bytes(*final(cache)).contains_key(name@) && cached_bytes(
                *final(cache),
            )[name@] == value@,
            None => !cached_bytes(*final(cache)).contains_key(name@),
        },
{
    cache.get(name).cloned()
}

/// Calls `LruCache::insert`. Where the cache holds `name`, the value is
/// replaced, the old one handed back and nothing else changes. Where it
/// does not, it first drops what has expired, which depends on the clock,
/// and the oldest entries while it is full, and hands back nothing. A cache
/// that is limited to no entries would never be done with that, so it is
/// left out.
#[verifier::external_body]
pub(crate) fn cache_insert(
    cache: &mut LruCache<[u8; 64], Vec<u8>>,
    name: [u8; 64],
    value: Vec<u8>,
) -> (previous: Option<Vec<u8>>)
    requires
        cache_capacity(*old(cache)) > 0,
    ensures
        cache_capacity(*final(cache)) == cache_capacity(*old(cache)),
        cached_bytes(*final(cache)).contains_key(name@),
        cached_bytes(*final(cache))[name@] == value@,
        forall|other: Seq<u8>|
            other != name@ && #[trigger] cached_bytes(*final(cache)).contains_key(other)
                ==> cached_bytes(*old(cache)).contains_key(other) && cached_bytes(
                *final(cache),
            )[other] == cached_bytes(*old(cache))[other],
        cached_bytes(*old(cache)).contains_key(name@) ==> cached_bytes(*final(cache))
            == cached_bytes(*old(cache)).insert(name@, value@),
        match previous {
            Some(held) => cached_bytes(*old(cache)).contains_key(name@) && cached_bytes(
                *old(cache),
            )[name@] == held@,
            None => !cached_bytes(*old(cache)).contains_key(name@),
        },
{
    cache.insert(name, value)
}

/// Calls `LruCache::remove`, which takes out the entry under `name` and
/// hands it back, whether expired or not, and touches nothing else.
#[verifier::external_body]
pub(crate) fn cache_remove(cache: &mut LruCache<[u8; 64], Vec<u8>>, name: &[u8; 64]) -> (previous:
    Option<Vec<u8>>)
    ensures
        cache_capacity(*final(cache)) == cache_capacity(*old(cache)),
        cached_bytes(*final(cache)) == cached_bytes(*old(cache)).remove(name@),
        match previous {
            Some(held) => cached_bytes(*old(cache)).contains_key(name@) && cached_bytes(
                *old(cache),
            )[name@] == held@,
            None => !cached_bytes(*old(cache)).contains_key(name@),
        },
{
    cache.remove(name)
}

/// Calls `LruCache::retrieve_all`. It first drops what has expired, which
/// depends on the clock: afterwards the cache holds only what it held
/// before, and the answer lists each entry that it then holds, once, in no
/// stated order.
#[verifier::external_body]
pub(crate) fn cache_retrieve_all(cache: &mut LruCache<[u8; 64], Vec<u8>>) -> (entries: Vec<
    ([u8; 64], Vec<u8>),
>)
    ensures
        cache_capacity(*final(cache)) == cache_capacity(*old(cache)),
        cached_bytes(*final(cache)).submap_of(cached_bytes(*old(cache))),
        forall|i: int|
            0 <= i < entries@.len() ==> cached_bytes(*final(cache)).contains_key(
                #[trigger] entries@[i].0@,
            ) && cached_bytes(*final(cache))[entries@[i].0@] == entries@[i].1@,
        forall|name: Seq<u8>| #[trigger]
            cached_bytes(*final(cache)).contains_key(name) ==> exists|i: int|
                0 <= i < entries@.len() && #[trigger] entries@[i].0@ == name,
        forall|i: int, j: int|
            0 <= i < j < entries@.len() ==> #[trigger] entries@[i].0@ != #[trigger] entries@[j].0@,
{
    cache.retrieve_all()
}

/// Whether `bytes` are the canonical bytes of a public id.
pub open spec fn is_public_id(bytes: Seq<u8>) -> bool {
    exists|id: PublicId| wire_public_id(id) == bytes
}

/// The public id that `bytes` are the canonical bytes of.
pub open spec fn public_id_of(bytes: Seq<u8>) -> PublicId {
    choose|id: PublicId| wire_public_id(id) == bytes
}

/// The public ids that a cache holds by name: those of its byte strings
/// that are public ids.
pub open spec fn cached_ids(cache: LruCache<[u8; 64], Vec<u8>>) -> Map<Seq<u8>, PublicId> {
    Map::new(
        |name: Seq<u8>|
            cached_bytes(cache).contains_key(name) && is_public_id(cached_bytes(cache)[name]),
        |name: Seq<u8>| public_id_of(cached_bytes(cache)[name]),
    )
}

/// The payloads that a cache holds by name.
pub open spec fn cached_data(cache: LruCache<[u8; 64], Vec<u8>>) -> Map<Seq<u8>, Seq<u8>> {
    cached_bytes(cache)
}

/// The canonical bytes of a public id are those of that public id alone.
pub proof fn lemma_public_id_of_wire(id: PublicId)
    ensures
        is_public_id(wire_public_id(id)),
        public_id_of(wire_public_id(id)) == id,
{
    lemma_public_id_wire_injective(public_id_of(wire_public_id(id)), id);
}

/// A cache that holds only what another holds, holds only public ids that
/// the other holds.
pub proof fn lemma_cached_ids_submap(
    part: LruCache<[u8; 64], Vec<u8>>,
    whole: LruCache<[u8; 64], Vec<u8>>,
)
    requires
        cached_bytes(part).submap_of(cached_bytes(whole)),
    ensures
        cached_ids(part).submap_of(cached_ids(whole)),
{
    assert forall|name: Seq<u8>| #[trigger] cached_ids(part).contains_key(name) implies cached_ids(
        whole,
    ).contains_key(name) && cached_ids(part)[name] == cached_ids(whole)[name] by {
        assert(cached_bytes(part).contains_key(name));
        assert(cached_bytes(whole).contains_key(name));
    }
}

/// The public id that `bytes` stand for, if any.
fn read_cached_id(bytes: &Vec<u8>) -> (found: Option<PublicId>)
    ensures
        found == if is_public_id(bytes@) {
            Some(public_id_of(bytes@))
        } else {
            None::<PublicId>
        },
{
    match decode_public_id(bytes.as_slice()) {
        Ok(id) => {
            proof {
                lemma_public_id_of_wire(id);
            }
            Some(id)
        },
        Err(_) => None,
    }
}

/// A cache of public ids that holds nothing.
pub(crate) fn id_cache_new(seconds: i64) -> (cache: LruCache<[u8; 64], Vec<u8>>)
    requires
        0 <= seconds <= MAX_EXPIRY_SECONDS,
    ensures
        cached_ids(cache).dom() == Set::<Seq<u8>>::empty(),
        cache_capacity(cache) > 0,
{
    let cache = cache_new(seconds);
    assert(cached_ids(cache).dom() =~= Set::<Seq<u8>>::empty());
    cache
}

/// The public id held under `name`. The cache may drop what has expired,
/// and holds afterwards only what it held before.
pub(crate) fn id_cache_get(cache: &mut LruCache<[u8; 64], Vec<u8>>, name: &[u8; 64]) -> (found: Option<
    PublicId,
>)
    ensures
        cache_capacity(*final(cache)) == cache_capacity(*old(cache)),
        cached_ids(*final(cache)).submap_of(cached_ids(*old(cache))),
        found == if cached_ids(*final(cache)).contains_key(name@) {
            Some(cached_ids(*final(cache))[name@])
        } else {
            None::<PublicId>
        },
{
    let found = cache_get(cache, name);
    proof {
        lemma_cached_ids_submap(*cache, *old(cache));
    }
    match found {
        Some(bytes) => read_cached_id(&bytes),
        None => None,
    }
}

/// Puts `id` under `name` and hands back the public id that was held
/// there. Where one was held nothing else changes; where none was, the
/// cache may drop what has expired.
pub(crate) fn id_cache_insert(cache: &mut LruCache<[u8; 64], Vec<u8>>, name: [u8; 64], id: PublicId) -> (previous:
    Option<PublicId>)
    requires
        cache_capacity(*old(cache)) > 0,
    ensures
        cache_capacity(*final(cache)) == cache_capacity(*old(cache)),
        cached_ids(*final(cache)).contains_key(name@),
        cached_ids(*final(cache))[name@] == id,
        forall|other: Seq<u8>|
            other != name@ && #[trigger] cached_ids(*final(cache)).contains_key(other)
                ==> cached_ids(*old(cache)).contains_key(other) && cached_ids(*final(cache))[other]
                == cached_ids(*old(cache))[other],
        cached_ids(*old(cache)).contains_key(name@) ==> cached_ids(*final(cache)) == cached_ids(
            *old(cache),
        ).insert(name@, id),
        previous == if cached_ids(*old(cache)).contains_key(name@) {
            Some(cached_ids(*old(cache))[name@])
        } else {
            None::<PublicId>
        },
{
    proof {
        lemma_public_id_of_wire(id);
    }
    let previous = cache_insert(cache, name, encode_public_id(&id));
    proof {
        if cached_ids(*old(cache)).contains_key(name@) {
            assert(cached_ids(*final(cache)) =~= cached_ids(*old(cache)).insert(name@, id));
        }
    }
    match previous {
        Some(bytes) => read_cached_id(&bytes),
        None => None,
    }
}

/// Takes out what is held under `name` and hands back the public id that
/// was held there. Nothing else changes.
pub(crate) fn id_cache_remove(cache: &mut LruCache<[u8; 64], Vec<u8>>, name: &[u8; 64]) -> (previous:
    Option<PublicId>)
    ensures
        cache_capacity(*final(cache)) == cache_capacity(*old(cache)),
        cached_ids(*final(cache)) == cached_ids(*old(cache)).remove(name@),
        previous == if cached_ids(*old(cache)).contains_key(name@) {
            Some(cached_ids(*old(cache))[name@])
        } else {
            None::<PublicId>
        },
{
    let previous = cache_remove(cache, name);
    assert(cached_ids(*final(cache)) =~= cached_ids(*old(cache)).remove(name@));
    match previous {
        Some(bytes) => read_cached_id(&bytes),
        None => None,
    }
}

/// All public ids held, each with the name it is held under, once, in no
/// stated order. The cache may drop what has expired, and holds afterwards
/// only what it held before.
pub(crate) fn id_cache_retrieve_all(cache: &mut LruCache<[u8; 64], Vec<u8>>) -> (entries: Vec<
    ([u8; 64], PublicId),
>)
    ensures
        cache_capacity(*final(cache)) == cache_capacity(*old(cache)),
        cached_ids(*final(cache)).submap_of(cached_ids(*old(cache))),
        forall|i: int|
            0 <= i < entries@.len() ==> cached_ids(*final(cache)).contains_key(
                #[trigger] entries@[i].0@,
            ) && cached_ids(*final(cache))[entries@[i].0@] == entries@[i].1,
        forall|name: Seq<u8>| #[trigger]
            cached_ids(*final(cache)).contains_key(name) ==> exists|i: int|
                0 <= i < entries@.len() && #[trigger] entries@[i].0@ == name,
        forall|i: int, j: int|
            0 <= i < j < entries@.len() ==> #[trigger] entries@[i].0@ != #[trigger] entries@[j].0@,
{
    let held = cache_retrieve_all(cache);
    let ghost now = *cache;
    let ghost ids = cached_ids(now);
    let ghost bytes = cached_bytes(now);
    proof {
        lemma_cached_ids_submap(now, *old(cache));
    }
    let mut entries: Vec<([u8; 64], PublicId)> = Vec::new();
    // For each entry taken over, the place in `held` that it came from.
    let ghost mut from: Seq<int> = Seq::empty();
    let mut k: usize = 0;
    while k < held.len()
        invariant
            k <= held@.len(),
            *cache == now,
            ids == cached_ids(now),
            bytes == cached_bytes(now),
            forall|i: int|
                0 <= i < held@.len() ==> bytes.contains_key(#[trigger] held@[i].0@)
                    && bytes[held@[i].0@] == held@[i].1@,
            forall|i: int, j: int|
                0 <= i < j < held@.len() ==> #[trigger] held@[i].0@ != #[trigger] held@[j].0@,
            from.len() == entries@.len(),
            forall|i: int|
                0 <= i < entries@.len() ==> 0 <= #[trigger] from[i] < k && entries@[i].0
                    == held@[from[i]].0 && ids.contains_key(entries@[i].0@) && ids[entries@[i].0@]
                    == entries@[i].1,
            forall|i: int, j: int| 0 <= i < j < entries@.len() ==> #[trigger] from[i] < #[trigger] from[j],
            forall|m: int|
                0 <= m < k && is_public_id(#[trigger] held@[m].1@) ==> exists|i: int|
                    0 <= i < entries@.len() && #[trigger] from[i] == m,
        decreases held@.len() - k,
    {
        let ghost before = entries@;
        let ghost before_from = from;
        match read_cached_id(&held[k].1) {
            Some(id) => {
                entries.push((held[k].0, id));
                proof {
                    from = from.push(k as int);
                    assert forall|m: int|
                        0 <= m < k + 1 && is_public_id(#[trigger] held@[m].1@) implies exists|
                        i: int,
                    | 0 <= i < entries@.len() && #[trigger] from[i] == m by {
                        if m < k {
                            let i = choose|i: int|
                                0 <= i < before.len() && #[trigger] before_from[i] == m;
                            assert(from[i] == m);
                        } else {
                            assert(from[before.len() as int] == m);
                        }
                    }
                }
            },
            None => {},
        }
        k += 1;
    }
    proof {
        assert forall|i: int| 0 <= i < entries@.len() implies ids.contains_key(
            #[trigger] entries@[i].0@,
        ) && ids[entries@[i].0@] == entries@[i].1 by {
            assert(0 <= from[i] < k);
        }
        assert forall|name: Seq<u8>| #[trigger] ids.contains_key(name) implies exists|i: int|
            0 <= i < entries@.len() && #[trigger] entries@[i].0@ == name by {
            let m = choose|m: int| 0 <= m < held@.len() && #[trigger] held@[m].0@ == name;
            assert(is_public_id(held@[m].1@));
            let i = choose|i: int| 0 <= i < entries@.len() && #[trigger] from[i] == m;
            assert(entries@[i].0@ == name);
        }
        assert forall|i: int, j: int| 0 <= i < j < entries@.len() implies #[trigger] entries@[i].0@
            != #[trigger] entries@[j].0@ by {
            assert(from[i] < from[j]);
            assert(held@[from[i]].0@ != held@[from[j]].0@);
        }
    }
    entries
}

/// A cache of data that holds nothing.
pub(crate) fn data_cache_new(seconds: i64) -> (cache: LruCache<[u8; 64], Vec<u8>>)
    requires
        0 <= seconds <= MAX_EXPIRY_SECONDS,
    ensures
        cached_data(cache).dom() == Set::<Seq<u8>>::empty(),
        cache_capacity(cache) > 0,
{
    cache_new(seconds)
}

/// The payload held under `name`. The cache may drop what has expired,
/// and holds afterwards only what it held before.
pub(crate) fn data_cache_get(cache: &mut LruCache<[u8; 64], Vec<u8>>, name: &[u8; 64]) -> (found: Option<
    Vec<u8>,
>)
    ensures
        cache_capacity(*final(cache)) == cache_capacity(*old(cache)),
        cached_data(*final(cache)).submap_of(cached_data(*old(cache))),
        match found {
            Some(payload) => cached_data(*final(cache)).contains_key(name@) && cached_data(
                *final(cache),
            )[name@] == payload@,
            None => !cached_data(*final(cache)).contains_key(name@),
        },
{
    cache_get(cache, name)
}

/// Puts `payload` under `name`. Where something was held there nothing
/// else changes; where nothing was, the cache may drop what has expired.
pub(crate) fn data_cache_insert(cache: &mut LruCache<[u8; 64], Vec<u8>>, name: [u8; 64], payload: Vec<u8>)
    requires
        cache_capacity(*old(cache)) > 0,
    ensures
        cache_capacity(*final(cache)) == cache_capacity(*old(cache)),
        cached_data(*final(cache)).contains_key(name@),
        cached_data(*final(cache))[name@] == payload@,
        forall|other: Seq<u8>|
            other != name@ && #[trigger] cached_data(*final(cache)).contains_key(other)
                ==> cached_data(*old(cache)).contains_key(other) && cached_data(
                *final(cache),
            )[other] == cached_data(*old(cache))[other],
{
    let _ = cache_insert(cache, name, payload);
}

} // verus!
