//! The `lru` crate's cache, as used for the in-process front layer.

use std::num::NonZeroUsize;
use vstd::prelude::*;

verus! {

#[verifier::external_type_specification]
#[verifier::external_body]
#[verifier::reject_recursive_types(K)]
#[verifier::reject_recursive_types(V)]
#[verifier::reject_recursive_types(S)]
pub struct ExLruCache<K, V, S>(lru::LruCache<K, V, S>);

#[verifier::external_type_specification]
#[verifier::external_body]
pub struct ExLruDefaultHasher(lru::DefaultHasher);

/// The front layer: keys to (value, expiry in milliseconds since the Unix epoch).
pub type FrontCache = lru::LruCache<String, (String, u64)>;

/// The entries a front cache holds, by key.
pub uninterp spec fn front_entries(c: FrontCache) -> Map<Seq<char>, (Seq<char>, u64)>;

/// The number of entries a front cache was created to hold.
pub uninterp spec fn front_capacity(c: FrontCache) -> nat;

/// `LruCache::new(NonZeroUsize::new(cap).unwrap())`: an empty cache holding
/// at most `cap` entries.
#[verifier::external_body]
pub(crate) fn front_new(cap: usize) -> (r: FrontCache)
    requires
        cap > 0,
    ensures
        front_entries(r).dom() == Set::<Seq<char>>::empty(),
        front_capacity(r) == cap,
{
    lru::LruCache::new(NonZeroUsize::new(cap).unwrap())
}

/// `LruCache::get`, with the value copied out: the entry under `key`, if
/// any. The entries are unchanged (only their recency order moves).
#[verifier::external_body]
pub(crate) fn front_get(c: &mut FrontCache, key: &str) -> (r: Option<(String, u64)>)
    ensures
        front_entries(*final(c)) == front_entries(*old(c)),
        front_capacity(*final(c)) == front_capacity(*old(c)),
        r is Some <==> front_entries(*old(c)).dom().contains(key@),
        r matches Some(e) ==> front_entries(*old(c))[key@] == (e.0@, e.1),
{
    match c.get(key) {
        Some((v, t)) => Some((v.clone(), *t)),
        None => None,
    }
}

/// `LruCache::put`: stores the entry; when the key is new and the cache is
/// full, the least recently used entry, under another key, is evicted.
#[verifier::external_body]
pub(crate) fn front_put(c: &mut FrontCache, key: String, value: (String, u64))
    ensures
        front_capacity(*final(c)) == front_capacity(*old(c)),
        ({
            let before = front_entries(*old(c));
            let after = front_entries(*final(c));
            let grown = before.insert(key@, (value.0@, value.1));
            if before.dom().contains(key@) || before.dom().len() < front_capacity(*old(c)) {
                after == grown
            } else {
                exists|e: Seq<char>| #[trigger] before.dom().contains(e) && e != key@ && after == grown.remove(e)
            }
        }),
{
    c.put(key, value);
}

/// `LruCache::pop`: removes the entry under `key`.
#[verifier::external_body]
pub(crate) fn front_pop(c: &mut FrontCache, key: &str)
    ensures
        front_entries(*final(c)) == front_entries(*old(c)).remove(key@),
        front_capacity(*final(c)) == front_capacity(*old(c)),
{
    c.pop(key);
}

} // verus!
