//! The two-level session cache and its feedback entry point.

use vstd::prelude::*;

use crate::lru_model::{
    distinct_keys, find_entry, insert_entry, lemma_find_entry, lemma_insert_entry_source,
    lemma_insert_existing_lookup, lemma_insert_preserves, lemma_promote_entries,
    lemma_promote_preserves, lookup, promote,
};
use crate::lru_store::{
    index_cache_get, index_cache_new, index_cache_put, index_capacity, index_entries,
    info_cache_get, info_cache_new, info_cache_peek, info_cache_put, info_capacity, info_entries,
};
use crate::reorder::{reorder_group, reorder_seq};
use crate::topology::{derive_session_info, derivation_error, no_local_match, valid_derivation};
use crate::types::{ContextId, DiscoveryId, Error, GroupIndex, RawSessionData, SessionIndex, ValidatorIndex};

verus! {

/// Bound of the first-level store (context identifier to session
/// index). Conservative: the handful of heads under work share few
/// distinct sessions.
pub const INDEX_CACHE_CAPACITY: usize = 5;

/// Bound of the second-level store (session index to session info):
/// the current and the previous session are the ones normally needed.
pub const INFO_CACHE_CAPACITY: usize = 2;

/// Localized session information: one session's validator topology from
/// this node's point of view.
///
/// Each group's order is randomized at creation, so that different
/// nodes try group members in different orders and the chunk-fetch load
/// spreads over the network. The membership of each group never changes
/// afterwards; only the order within a group moves, through
/// [`SessionCache::report_bad`].
#[derive(Clone, Debug, PartialEq, Eq)]
pub struct SessionInfo {
    /// The index of this session.
    pub session_index: SessionIndex,
    /// Validator groups of the session, each member named by its
    /// discovery identity, in retry order (members are tried from the
    /// back, so the front is tried last).
    pub validator_groups: Vec<Vec<DiscoveryId>>,
    /// Our position in the session's full validator list.
    pub our_index: ValidatorIndex,
    /// The group we belong to.
    pub our_group: GroupIndex,
}

/// The mathematical view of a [`SessionInfo`]: the same fields with the
/// groups abstracted to sequences.
pub struct SessionInfoV {
    pub session_index: SessionIndex,
    pub validator_groups: Seq<Seq<DiscoveryId>>,
    pub our_index: ValidatorIndex,
    pub our_group: GroupIndex,
}

impl View for SessionInfo {
    type V = SessionInfoV;

    open spec fn view(&self) -> SessionInfoV {
        SessionInfoV {
            session_index: self.session_index,
            validator_groups: self.validator_groups@.map_values(|g: Vec<DiscoveryId>| g@),
            our_index: self.our_index,
            our_group: self.our_group,
        }
    }
}

/// Report of validators within one group that failed to respond.
pub struct BadValidators {
    /// The session the report is about.
    pub session_index: SessionIndex,
    /// The group the unresponsive validators belong to.
    pub group_index: GroupIndex,
    /// Their discovery identities, in the order they should be
    /// deprioritized.
    pub bad_validators: Vec<DiscoveryId>,
}

/// What a lookup found, or which external query is needed next.
///
/// The cache never performs a query itself: on a miss it answers with
/// the query the caller must run, and the caller hands the answer back
/// through [`SessionCache::supply_session_index`] or
/// [`SessionCache::supply_session_data`].
#[derive(Debug, PartialEq, Eq)]
pub enum Lookup {
    /// Both levels hit: a snapshot of the cached session info. The
    /// snapshot is the caller's own; it is not invalidated when the
    /// cache later evicts or reorders the entry it was taken from.
    Found(SessionInfo),
    /// The context identifier is not cached: resolve it to a session
    /// index externally, then call `supply_session_index`.
    NeedSessionIndex,
    /// The session index is known but its info is not cached: fetch the
    /// raw session data externally, then call `supply_session_data`.
    NeedSessionData(SessionIndex),
}

/// The two bounded stores. Both are least-recently-used: reading an
/// entry keeps it alive, writing at capacity drops the entry unused for
/// the longest time.
pub struct SessionCache {
    session_index_cache: lru::LruCache<u64, SessionIndex>,
    session_info_cache: lru::LruCache<SessionIndex, SessionInfo>,
}

impl SessionCache {
    /// The first-level store: context identifier to session index, most
    /// recently used first.
    pub closed spec fn index_model(self) -> Seq<(u64, SessionIndex)> {
        index_entries(self.session_index_cache)
    }

    /// The second-level store: session index to session info view, most
    /// recently used first.
    pub closed spec fn info_model(self) -> Seq<(SessionIndex, SessionInfoV)> {
        info_entries(self.session_info_cache)
    }

    /// Well-formed: capacities as constructed, keys distinct, sizes
    /// within bound, and every cached info belongs to the session it is
    /// stored under.
    pub closed spec fn wf(self) -> bool {
        &&& index_capacity(self.session_index_cache) == INDEX_CACHE_CAPACITY as nat
        &&& info_capacity(self.session_info_cache) == INFO_CACHE_CAPACITY as nat
        &&& distinct_keys(self.index_model())
        &&& self.index_model().len() <= INDEX_CACHE_CAPACITY as nat
        &&& distinct_keys(self.info_model())
        &&& self.info_model().len() <= INFO_CACHE_CAPACITY as nat
        &&& forall|j: int|
            0 <= j < self.info_model().len() ==> (#[trigger] self.info_model()[j]).1.session_index
                == self.info_model()[j].0
    }

    /// The session index cached for a context, if any.
    pub open spec fn cached_index(self, ctx: ContextId) -> Option<SessionIndex> {
        lookup(self.index_model(), ctx.0)
    }

    /// The session info view cached for a session index, if any.
    pub open spec fn cached_info(self, index: SessionIndex) -> Option<SessionInfoV> {
        lookup(self.info_model(), index)
    }

    /// Whether a lookup for `ctx` is answered without any external
    /// query: its session index is cached, and so is that session's
    /// info.
    pub open spec fn is_fully_cached(self, ctx: ContextId) -> bool {
        match self.cached_index(ctx) {
            Option::Some(index) => self.cached_info(index) is Some,
            Option::None => false,
        }
    }

    /// Both stores start empty.
    pub fn new() -> (r: SessionCache)
        ensures
            r.wf(),
            r.index_model() == Seq::<(u64, SessionIndex)>::empty(),
            r.info_model() == Seq::<(SessionIndex, SessionInfoV)>::empty(),
    {
        SessionCache {
            session_index_cache: index_cache_new(INDEX_CACHE_CAPACITY),
            session_info_cache: info_cache_new(INFO_CACHE_CAPACITY),
        }
    }

    /// Second-level lookup: answer from the info store, or name the
    /// fetch that is needed. Never asks for a session index.
    fn lookup_info(&mut self, index: SessionIndex) -> (r: Lookup)
        requires
            old(self).wf(),
        ensures
            final(self).wf(),
            final(self).index_model() == old(self).index_model(),
            !(r is NeedSessionIndex),
            match lookup(old(self).info_model(), index) {
                Option::None => r == Lookup::NeedSessionData(index) && final(self).info_model() == old(self).info_model(),
                Option::Some(infov) => (r matches Lookup::Found(info) && info@ == infov)
                    && final(self).info_model() == promote(
                    old(self).info_model(),
                    find_entry(old(self).info_model(), index),
                ),
            },
    {
        let ghost s = info_entries(self.session_info_cache);
        match info_cache_get(&mut self.session_info_cache, index) {
            Option::None => Lookup::NeedSessionData(index),
            Option::Some(info) => {
                proof {
                    lemma_find_entry(s, index);
                    lemma_promote_preserves(s, find_entry(s, index));
                    lemma_promote_entries(s, find_entry(s, index));
                }
                Lookup::Found(info)
            },
        }
    }

    /// Primary read path: resolve the context to a session index and the
    /// session index to its info, answering from the caches wherever
    /// possible.
    ///
    /// `Found` comes back exactly when both levels already hold the
    /// answer — a repeated lookup after a completed one asks for
    /// nothing. On a miss nothing is fetched here; the caller runs the
    /// named query and hands the answer back, so that an already cached
    /// info, with its accumulated retry order, is never clobbered by a
    /// redundant fetch.
    pub fn with_session_info(&mut self, ctx: ContextId) -> (r: Lookup)
        requires
            old(self).wf(),
        ensures
            final(self).wf(),
            (r is Found) <==> old(self).is_fully_cached(ctx),
            forall|c2: ContextId| #[trigger]
                final(self).is_fully_cached(c2) == old(self).is_fully_cached(c2),
            match lookup(old(self).index_model(), ctx.0) {
                Option::None => r is NeedSessionIndex && final(self).index_model() == old(self).index_model() && final(self).info_model() == old(self).info_model(),
                Option::Some(index) => final(self).index_model() == promote(
                    old(self).index_model(),
                    find_entry(old(self).index_model(), ctx.0),
                ) && (match lookup(old(self).info_model(), index) {
                    Option::None => r == Lookup::NeedSessionData(index) && final(self).info_model()
                        == old(self).info_model(),
                    Option::Some(infov) => (r matches Lookup::Found(info) && info@ == infov)
                        && final(self).info_model() == promote(
                        old(self).info_model(),
                        find_entry(old(self).info_model(), index),
                    ),
                }),
            },
    {
        let ghost s0 = index_entries(self.session_index_cache);
        let ghost f0 = info_entries(self.session_info_cache);
        match index_cache_get(&mut self.session_index_cache, ctx.0) {
            Option::None => {
                proof {
                    lemma_find_entry(s0, ctx.0);
                }
                Lookup::NeedSessionIndex
            },
            Option::Some(index) => {
                proof {
                    lemma_find_entry(s0, ctx.0);
                    lemma_promote_preserves(s0, find_entry(s0, ctx.0));
                }
                let r = self.lookup_info(index);
                proof {
                    if lookup(f0, index) is Some {
                        lemma_find_entry(f0, index);
                        lemma_promote_preserves(f0, find_entry(f0, index));
                    }
                }
                r
            },
        }
    }

    /// Record an externally resolved session index for `ctx`, then look
    /// the session up as `with_session_info` would.
    ///
    /// The mapping is cached whether or not the session's info ends up
    /// cached: resolving the context again will not re-ask for the
    /// index while the entry survives.
    pub fn supply_session_index(&mut self, ctx: ContextId, index: SessionIndex) -> (r: Lookup)
        requires
            old(self).wf(),
        ensures
            final(self).wf(),
            final(self).index_model() == insert_entry(
                old(self).index_model(),
                INDEX_CACHE_CAPACITY as nat,
                ctx.0,
                index,
            ),
            final(self).cached_index(ctx) == Some(index),
            !(r is NeedSessionIndex),
            match lookup(old(self).info_model(), index) {
                Option::None => r == Lookup::NeedSessionData(index) && final(self).info_model() == old(self).info_model(),
                Option::Some(infov) => (r matches Lookup::Found(info) && info@ == infov)
                    && final(self).info_model() == promote(
                    old(self).info_model(),
                    find_entry(old(self).info_model(), index),
                ),
            },
    {
        let ghost s0 = index_entries(self.session_index_cache);
        proof {
            lemma_insert_preserves(s0, INDEX_CACHE_CAPACITY as nat, ctx.0, index);
        }
        index_cache_put(&mut self.session_index_cache, ctx.0, index);
        self.lookup_info(index)
    }

    /// Record externally fetched session data for `index`: derive the
    /// localized info and, when this node is a validator, cache it.
    ///
    /// `data` is the provider's answer (`None` when the session does
    /// not exist) and `has_key` the key store's answer for each of its
    /// validators, in index order. When the local node is not a
    /// validator nothing enters the info store — no stale absent
    /// marker can block a session whose keys arrive later — while the
    /// context-to-index mapping recorded earlier stays.
    pub fn supply_session_data(
        &mut self,
        index: SessionIndex,
        data: Option<RawSessionData>,
        has_key: &Vec<bool>,
    ) -> (r: Result<Option<SessionInfo>, Error>)
        requires
            old(self).wf(),
            data matches Some(d) ==> has_key@.len() == d.validators@.len() && has_key@.len()
                <= u32::MAX as nat && d.validator_groups@.len() <= u32::MAX as nat,
        ensures
            final(self).wf(),
            final(self).index_model() == old(self).index_model(),
            data is None ==> r == Err::<Option<SessionInfo>, Error>(Error::NoSuchSession(index))
                && final(self).info_model() == old(self).info_model(),
            data matches Some(d) ==> match r {
                Result::Ok(opt) => (match opt {
                    Option::None => no_local_match(has_key@) && final(self).info_model() == old(self).info_model(),
                    Option::Some(info) => valid_derivation(d, has_key@, index, info@) && final(self).info_model() == insert_entry(
                        old(self).info_model(),
                        INFO_CACHE_CAPACITY as nat,
                        index,
                        info@,
                    ) && final(self).cached_info(index) == Some(info@),
                }),
                Result::Err(e) => final(self).info_model() == old(self).info_model()
                    && derivation_error(d, has_key@, e),
            },
            (r matches Ok(opt) && opt is None) <==> (data is Some && no_local_match(has_key@)),
    {
        let d = match data {
            Option::None => {
                return Err(Error::NoSuchSession(index));
            },
            Option::Some(d) => d,
        };
        match derive_session_info(index, &d, has_key) {
            Result::Err(e) => Err(e),
            Result::Ok(opt) => match opt {
                Option::None => Ok(None),
                Option::Some(info) => {
                    let snapshot = clone_info(&info);
                    let ghost s0 = info_entries(self.session_info_cache);
                    proof {
                        lemma_insert_preserves(s0, INFO_CACHE_CAPACITY as nat, index, info@);
                        lemma_insert_entry_source(s0, INFO_CACHE_CAPACITY as nat, index, info@);
                    }
                    info_cache_put(&mut self.session_info_cache, index, info);
                    Ok(Some(snapshot))
                },
            },
        }
    }

    /// Make unresponsive or misbehaving validators be tried last.
    ///
    /// Group members are consumed in reverse order by the fetch path,
    /// so the reported identities move to the front of their group:
    /// they stay eligible, after everyone else. The report only makes
    /// sense against data already in use, so an uncached session is an
    /// error, never fetched; on any error nothing changes.
    pub fn report_bad(&mut self, report: BadValidators) -> (r: Result<(), Error>)
        requires
            old(self).wf(),
        ensures
            final(self).wf(),
            final(self).index_model() == old(self).index_model(),
            (r is Ok) <==> (old(self).cached_info(report.session_index) matches Some(iv)
                && (report.group_index.0 as int) < iv.validator_groups.len()),
            match r {
                Result::Err(e) => final(self).info_model() == old(self).info_model() && ((e
                    == Error::ReportAgainstUncachedSession && old(self).cached_info(
                    report.session_index,
                ) is None) || (e == Error::ReportAgainstInvalidGroup && (old(self).cached_info(
                    report.session_index,
                ) matches Some(iv) && (report.group_index.0 as int)
                    >= iv.validator_groups.len()))),
                Result::Ok(_) => (old(self).cached_info(report.session_index) matches Some(oldv)
                    && final(self).cached_info(report.session_index) matches Some(newv)
                    && newv.session_index == oldv.session_index && newv.our_index == oldv.our_index
                    && newv.our_group == oldv.our_group && newv.validator_groups.len()
                    == oldv.validator_groups.len() && (forall|j: int|
                    0 <= j < oldv.validator_groups.len() && j != report.group_index.0 as int
                        ==> #[trigger] newv.validator_groups[j] == oldv.validator_groups[j])
                    && newv.validator_groups[report.group_index.0 as int] == reorder_seq(
                    oldv.validator_groups[report.group_index.0 as int],
                    report.bad_validators@,
                ) && (forall|k2: SessionIndex|
                    k2 != report.session_index ==> #[trigger] final(self).cached_info(k2) == old(self).cached_info(k2))),
            },
    {
        let k = report.session_index;
        let ghost s0 = info_entries(self.session_info_cache);
        let cached = info_cache_peek(&self.session_info_cache, k);
        let mut info = match cached {
            Option::None => {
                proof {
                    lemma_find_entry(s0, k);
                }
                return Err(Error::ReportAgainstUncachedSession);
            },
            Option::Some(i) => i,
        };
        proof {
            lemma_find_entry(s0, k);
        }
        let gi = report.group_index.0 as usize;
        if gi >= info.validator_groups.len() {
            return Err(Error::ReportAgainstInvalidGroup);
        }
        let ghost f0 = find_entry(s0, k);
        let ghost oldv = s0[f0].1;
        // reading the session marks it most recently used
        let _refreshed = info_cache_get(&mut self.session_info_cache, k);
        proof {
            lemma_promote_preserves(s0, f0);
            lemma_promote_entries(s0, f0);
        }
        let ghost s1 = info_entries(self.session_info_cache);
        let new_group = reorder_group(&info.validator_groups[gi], &report.bad_validators);
        info.validator_groups[gi] = new_group;
        proof {
            assert(info@.validator_groups.len() == oldv.validator_groups.len());
            assert forall|j: int|
                0 <= j < oldv.validator_groups.len() && j != gi as int implies #[trigger] info@
                .validator_groups[j] == oldv.validator_groups[j] by {
                assert(info@.validator_groups[j] == info.validator_groups@[j]@);
            }
            assert(info@.validator_groups[gi as int] == reorder_seq(
                oldv.validator_groups[gi as int],
                report.bad_validators@,
            ));
            lemma_insert_preserves(s1, INFO_CACHE_CAPACITY as nat, k, info@);
            lemma_insert_entry_source(s1, INFO_CACHE_CAPACITY as nat, k, info@);
            lemma_find_entry(s1, k);
            lemma_insert_existing_lookup_all(s1, INFO_CACHE_CAPACITY as nat, k, info@);
        }
        info_cache_put(&mut self.session_info_cache, k, info);
        Ok(())
    }
}

/// A field-by-field copy of a group.
fn clone_group(g: &Vec<DiscoveryId>) -> (r: Vec<DiscoveryId>)
    ensures
        r@ == g@,
{
    let n = g.len();
    let mut out: Vec<DiscoveryId> = Vec::new();
    let mut i: usize = 0;
    while i < n
        invariant
            n == g@.len(),
            0 <= i <= n,
            out@.len() == i as nat,
            forall|j: int| 0 <= j < i ==> #[trigger] out@[j] == g@[j],
        decreases n - i,
    {
        out.push(g[i]);
        i = i + 1;
    }
    proof {
        assert(out@ =~= g@);
    }
    out
}

/// A field-by-field copy of a snapshot, with the same view.
fn clone_info(info: &SessionInfo) -> (r: SessionInfo)
    ensures
        r@ == info@,
{
    let n = info.validator_groups.len();
    let mut groups: Vec<Vec<DiscoveryId>> = Vec::new();
    let mut i: usize = 0;
    while i < n
        invariant
            n == info.validator_groups@.len(),
            0 <= i <= n,
            groups@.len() == i as nat,
            forall|j: int| 0 <= j < i ==> (#[trigger] groups@[j])@ == info.validator_groups@[j]@,
        decreases n - i,
    {
        let g = clone_group(&info.validator_groups[i]);
        groups.push(g);
        i = i + 1;
    }
    let r = SessionInfo {
        session_index: info.session_index,
        validator_groups: groups,
        our_index: info.our_index,
        our_group: info.our_group,
    };
    proof {
        assert(r@.validator_groups =~= info@.validator_groups);
    }
    r
}

/// Writing under a key already present evicts nothing, so every other
/// key's value stays.
proof fn lemma_insert_existing_lookup_all(
    s: Seq<(SessionIndex, SessionInfoV)>,
    cap: nat,
    k: SessionIndex,
    v: SessionInfoV,
)
    requires
        distinct_keys(s),
        s.len() <= cap,
        cap >= 1,
        find_entry(s, k) >= 0,
    ensures
        forall|k2: SessionIndex|
            k2 != k ==> #[trigger] lookup(insert_entry(s, cap, k, v), k2) == lookup(s, k2),
{
    assert forall|k2: SessionIndex|
        k2 != k implies #[trigger] lookup(insert_entry(s, cap, k, v), k2) == lookup(s, k2) by {
        lemma_insert_existing_lookup(s, cap, k, v, k2);
    }
}

/// Cache-hit avoids refetch: after a lookup completes through
/// `supply_session_index` and a successful `supply_session_data` — the
/// two stores then hold the context's session index and that session's
/// info — the context is fully cached, so `with_session_info` answers
/// `Found` for it and asks for no external query.
pub proof fn lemma_cache_hit_avoids_refetch(
    pre: SessionCache,
    mid: SessionCache,
    post: SessionCache,
    ctx: ContextId,
    index: SessionIndex,
    infov: SessionInfoV,
)
    requires
        pre.wf(),
        mid.wf(),
        mid.index_model() == insert_entry(
            pre.index_model(),
            INDEX_CACHE_CAPACITY as nat,
            ctx.0,
            index,
        ),
        post.index_model() == mid.index_model(),
        post.info_model() == insert_entry(
            mid.info_model(),
            INFO_CACHE_CAPACITY as nat,
            index,
            infov,
        ),
    ensures
        post.cached_index(ctx) == Some(index),
        post.cached_info(index) == Some(infov),
        post.is_fully_cached(ctx),
{
    lemma_insert_preserves(pre.index_model(), INDEX_CACHE_CAPACITY as nat, ctx.0, index);
    lemma_insert_preserves(mid.info_model(), INFO_CACHE_CAPACITY as nat, index, infov);
}

} // verus!
