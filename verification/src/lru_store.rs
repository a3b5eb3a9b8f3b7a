//! The two bounded stores, kept in `lru::LruCache`, behind contracts
//! phrased over the recency model of [`crate::lru_model`].
//!
//! `index_entries` / `info_entries` name the entries of a store in
//! recency order, most recently used first; `index_capacity` /
//! `info_capacity` name the bound each store was created with.

use vstd::prelude::*;

use crate::lru_model::{find_entry, insert_entry, promote};
use crate::session_cache::{SessionInfo, SessionInfoV};
use crate::types::SessionIndex;

verus! {

#[verifier::external_type_specification]
#[verifier::external_body]
#[verifier::reject_recursive_types(K)]
#[verifier::reject_recursive_types(V)]
#[verifier::reject_recursive_types(S)]
pub struct ExLruCache<K, V, S>(lru::LruCache<K, V, S>);

#[verifier::external_type_specification]
#[verifier::external_body]
pub struct ExDefaultHasher(lru::DefaultHasher);

/// The entries of the context-to-session store, most recently used first.
pub uninterp spec fn index_entries(c: lru::LruCache<u64, SessionIndex>) -> Seq<(u64, SessionIndex)>;

/// The bound the context-to-session store was created with.
pub uninterp spec fn index_capacity(c: lru::LruCache<u64, SessionIndex>) -> nat;

/// The entries of the session-info store, most recently used first,
/// each value abstracted to its view.
pub uninterp spec fn info_entries(c: lru::LruCache<SessionIndex, SessionInfo>) -> Seq<(SessionIndex, SessionInfoV)>;

/// The bound the session-info store was created with.
pub uninterp spec fn info_capacity(c: lru::LruCache<SessionIndex, SessionInfo>) -> nat;

/// Relies on `lru::LruCache::new`: the store starts empty, with the
/// given capacity.
#[verifier::external_body]
pub(crate) fn index_cache_new(cap: usize) -> (r: lru::LruCache<u64, SessionIndex>)
    requires
        1 <= cap,
    ensures
        index_entries(r) == Seq::<(u64, SessionIndex)>::empty(),
        index_capacity(r) == cap as nat,
{
    lru::LruCache::new(std::num::NonZeroUsize::new(cap).unwrap())
}

/// Relies on `lru::LruCache::get`: it returns the value stored under the
/// key and marks that entry most recently used; an absent key leaves the
/// store unchanged.
#[verifier::external_body]
pub(crate) fn index_cache_get(
    c: &mut lru::LruCache<u64, SessionIndex>,
    k: u64,
) -> (r: Option<SessionIndex>)
    ensures
        index_capacity(*final(c)) == index_capacity(*old(c)),
        find_entry(index_entries(*old(c)), k) < 0 ==> r is None && index_entries(*final(c))
            == index_entries(*old(c)),
        find_entry(index_entries(*old(c)), k) >= 0 ==> r == Some(
            index_entries(*old(c))[find_entry(index_entries(*old(c)), k)].1,
        ) && index_entries(*final(c)) == promote(
            index_entries(*old(c)),
            find_entry(index_entries(*old(c)), k),
        ),
{
    c.get(&k).copied()
}

/// Relies on `lru::LruCache::put`: it stores the pair as most recently
/// used, replacing an entry with an equal key; at capacity the least
/// recently used entry is evicted.
#[verifier::external_body]
pub(crate) fn index_cache_put(c: &mut lru::LruCache<u64, SessionIndex>, k: u64, v: SessionIndex)
    ensures
        index_capacity(*final(c)) == index_capacity(*old(c)),
        index_entries(*final(c)) == insert_entry(
            index_entries(*old(c)),
            index_capacity(*old(c)),
            k,
            v,
        ),
{
    let _ = c.put(k, v);
}

/// Relies on `lru::LruCache::new`: the store starts empty, with the
/// given capacity.
#[verifier::external_body]
pub(crate) fn info_cache_new(cap: usize) -> (r: lru::LruCache<SessionIndex, SessionInfo>)
    requires
        1 <= cap,
    ensures
        info_entries(r) == Seq::<(SessionIndex, SessionInfoV)>::empty(),
        info_capacity(r) == cap as nat,
{
    lru::LruCache::new(std::num::NonZeroUsize::new(cap).unwrap())
}

/// Relies on `lru::LruCache::get`, and on the derived `Clone` of
/// [`SessionInfo`], which copies every field: the returned snapshot has
/// the stored entry's view, and that entry becomes the most recently
/// used; an absent key leaves the store unchanged.
#[verifier::external_body]
pub(crate) fn info_cache_get(
    c: &mut lru::LruCache<SessionIndex, SessionInfo>,
    k: SessionIndex,
) -> (r: Option<SessionInfo>)
    ensures
        info_capacity(*final(c)) == info_capacity(*old(c)),
        find_entry(info_entries(*old(c)), k) < 0 ==> r is None && info_entries(*final(c)) == info_entries(
            *old(c),
        ),
        find_entry(info_entries(*old(c)), k) >= 0 ==> (r matches Some(info) && info@ == info_entries(
            *old(c),
        )[find_entry(info_entries(*old(c)), k)].1) && info_entries(*final(c)) == promote(
            info_entries(*old(c)),
            find_entry(info_entries(*old(c)), k),
        ),
{
    c.get(&k).cloned()
}

/// Relies on `lru::LruCache::peek`, and on the derived `Clone` of
/// [`SessionInfo`]: like `get`, but the recency order is not touched.
#[verifier::external_body]
pub(crate) fn info_cache_peek(
    c: &lru::LruCache<SessionIndex, SessionInfo>,
    k: SessionIndex,
) -> (r: Option<SessionInfo>)
    ensures
        (r is Some) == (find_entry(info_entries(*c), k) >= 0),
        r is Some ==> r.unwrap()@ == info_entries(*c)[find_entry(info_entries(*c), k)].1,
{
    c.peek(&k).cloned()
}

/// Relies on `lru::LruCache::put`: it stores the pair as most recently
/// used, replacing an entry with an equal key; at capacity the least
/// recently used entry is evicted.
#[verifier::external_body]
pub(crate) fn info_cache_put(c: &mut lru::LruCache<SessionIndex, SessionInfo>, k: SessionIndex, v: SessionInfo)
    ensures
        info_capacity(*final(c)) == info_capacity(*old(c)),
        info_entries(*final(c)) == insert_entry(info_entries(*old(c)), info_capacity(*old(c)), k, v@),
{
    let _ = c.put(k, v);
}

} // verus!
