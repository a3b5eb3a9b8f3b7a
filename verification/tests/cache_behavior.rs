//! Behavior of the two-level cache: hits, bounded eviction, the
//! non-validator path, and the feedback entry point.

use session_cache::session_cache::{BadValidators, Lookup, SessionCache, SessionInfo};
use session_cache::types::{ContextId, DiscoveryId, Error, RawSessionData, ValidatorId};

fn small_session_data() -> RawSessionData {
    RawSessionData {
        validators: vec![ValidatorId(10), ValidatorId(11)],
        discovery_keys: vec![DiscoveryId(100), DiscoveryId(101)],
        validator_groups: vec![vec![
            session_cache::types::ValidatorIndex(0),
            session_cache::types::ValidatorIndex(1),
        ]],
    }
}

/// Runs the whole lookup protocol once, so that `ctx -> index` and
/// `index -> info` are both cached. Panics if any step strays from the
/// expected fresh-lookup path.
fn cache_session(cache: &mut SessionCache, ctx: ContextId, index: u32) -> SessionInfo {
    match cache.with_session_info(ctx) {
        Lookup::NeedSessionIndex => {}
        other => panic!("fresh context should need an index, got {:?}", other),
    }
    match cache.supply_session_index(ctx, index) {
        Lookup::NeedSessionData(i) => assert_eq!(i, index),
        other => panic!("fresh session should need data, got {:?}", other),
    }
    let has_key = vec![true, false];
    match cache.supply_session_data(index, Some(small_session_data()), &has_key) {
        Ok(Some(info)) => info,
        other => panic!("derivation should succeed, got {:?}", other),
    }
}

#[test]
fn cache_hit_avoids_refetch() {
    let mut cache = SessionCache::new();
    let ctx = ContextId(7);
    let info = cache_session(&mut cache, ctx, 1);
    assert_eq!(info.session_index, 1);
    // The second lookup is answered from the cache alone: no
    // `NeedSessionIndex` or `NeedSessionData` comes back.
    match cache.with_session_info(ctx) {
        Lookup::Found(again) => assert_eq!(again, info),
        other => panic!("expected a cache hit, got {:?}", other),
    }
    // And a third, for good measure.
    assert!(matches!(cache.with_session_info(ctx), Lookup::Found(_)));
}

#[test]
fn first_level_lru_bound() {
    let mut cache = SessionCache::new();
    // Six distinct contexts into a store of five: the oldest leaves.
    for i in 1..=6u64 {
        let step = cache.supply_session_index(ContextId(i), i as u32);
        assert!(matches!(step, Lookup::NeedSessionData(_)));
    }
    // The five youngest resolve their index without refetch.
    for i in 2..=6u64 {
        match cache.with_session_info(ContextId(i)) {
            Lookup::NeedSessionData(index) => assert_eq!(index, i as u32),
            other => panic!("context {} should still be cached, got {:?}", i, other),
        }
    }
    // The oldest must be resolved externally again.
    assert!(matches!(
        cache.with_session_info(ContextId(1)),
        Lookup::NeedSessionIndex
    ));
}

#[test]
fn second_level_lru_bound() {
    let mut cache = SessionCache::new();
    // Session infos for three distinct sessions into a store of two.
    for i in 1..=3u64 {
        cache_session(&mut cache, ContextId(i), i as u32);
    }
    // The two most recently used sessions are still answered in full.
    assert!(matches!(
        cache.with_session_info(ContextId(2)),
        Lookup::Found(_)
    ));
    assert!(matches!(
        cache.with_session_info(ContextId(3)),
        Lookup::Found(_)
    ));
    // The oldest kept its context mapping but lost its info.
    match cache.with_session_info(ContextId(1)) {
        Lookup::NeedSessionData(index) => assert_eq!(index, 1),
        other => panic!("expected the info to be evicted, got {:?}", other),
    }
}

#[test]
fn non_validator_caches_no_info() {
    let mut cache = SessionCache::new();
    let ctx = ContextId(9);
    assert!(matches!(
        cache.with_session_info(ctx),
        Lookup::NeedSessionIndex
    ));
    assert!(matches!(
        cache.supply_session_index(ctx, 4),
        Lookup::NeedSessionData(4)
    ));
    // The key store matches nothing: no info may be cached.
    let has_key = vec![false, false];
    let r = cache.supply_session_data(4, Some(small_session_data()), &has_key);
    assert_eq!(r, Ok(None));
    // The context-to-index mapping is still cached ...
    match cache.with_session_info(ctx) {
        Lookup::NeedSessionData(index) => assert_eq!(index, 4),
        other => panic!("index should be cached, info not, got {:?}", other),
    }
    // ... and no stale absent marker blocks the session: with keys now
    // matching, the same session index caches fine.
    let has_key = vec![true, false];
    let r = cache.supply_session_data(4, Some(small_session_data()), &has_key);
    assert!(matches!(r, Ok(Some(_))));
    assert!(matches!(cache.with_session_info(ctx), Lookup::Found(_)));
}

#[test]
fn no_such_session_is_reported() {
    let mut cache = SessionCache::new();
    let r = cache.supply_session_data(77, None, &Vec::new());
    assert_eq!(r, Err(Error::NoSuchSession(77)));
}

#[test]
fn report_against_uncached_session_fails() {
    let mut cache = SessionCache::new();
    let ctx = ContextId(1);
    let info = cache_session(&mut cache, ctx, 1);
    let r = cache.report_bad(BadValidators {
        session_index: 2,
        group_index: session_cache::types::GroupIndex(0),
        bad_validators: vec![DiscoveryId(100)],
    });
    assert_eq!(r, Err(Error::ReportAgainstUncachedSession));
    // Cache state is unchanged: the cached session still answers, with
    // the same groups.
    match cache.with_session_info(ctx) {
        Lookup::Found(again) => assert_eq!(again, info),
        other => panic!("expected a cache hit, got {:?}", other),
    }
}

#[test]
fn report_against_invalid_group_fails() {
    let mut cache = SessionCache::new();
    let ctx = ContextId(1);
    let info = cache_session(&mut cache, ctx, 1);
    let r = cache.report_bad(BadValidators {
        session_index: 1,
        group_index: session_cache::types::GroupIndex(5),
        bad_validators: vec![DiscoveryId(100)],
    });
    assert_eq!(r, Err(Error::ReportAgainstInvalidGroup));
    match cache.with_session_info(ctx) {
        Lookup::Found(again) => assert_eq!(again, info),
        other => panic!("expected a cache hit, got {:?}", other),
    }
}

fn four_member_session_data() -> RawSessionData {
    RawSessionData {
        validators: (0..4).map(|i| ValidatorId(10 + i)).collect(),
        discovery_keys: vec![
            DiscoveryId(1),
            DiscoveryId(2),
            DiscoveryId(3),
            DiscoveryId(4),
        ],
        validator_groups: vec![(0..4).map(session_cache::types::ValidatorIndex).collect()],
    }
}

fn cache_four_member_session(cache: &mut SessionCache, ctx: ContextId, index: u32) -> SessionInfo {
    assert!(matches!(
        cache.with_session_info(ctx),
        Lookup::NeedSessionIndex
    ));
    cache.supply_session_index(ctx, index);
    let has_key = vec![true, false, false, false];
    match cache.supply_session_data(index, Some(four_member_session_data()), &has_key) {
        Ok(Some(info)) => info,
        other => panic!("derivation should succeed, got {:?}", other),
    }
}

#[test]
fn report_moves_bad_validators_to_front() {
    let mut cache = SessionCache::new();
    let ctx = ContextId(3);
    let info = cache_four_member_session(&mut cache, ctx, 6);
    let before = info.validator_groups[0].clone();
    assert_eq!(before.len(), 4);
    let bad = before[2];
    let r = cache.report_bad(BadValidators {
        session_index: 6,
        group_index: session_cache::types::GroupIndex(0),
        bad_validators: vec![bad],
    });
    assert_eq!(r, Ok(()));
    // The reported member moved to the front (tried last); everyone
    // else kept their relative order.
    let mut expected = vec![bad];
    expected.extend(before.iter().copied().filter(|x| *x != bad));
    match cache.with_session_info(ctx) {
        Lookup::Found(after) => assert_eq!(after.validator_groups[0], expected),
        other => panic!("expected a cache hit, got {:?}", other),
    }
}

#[test]
fn repeated_report_is_idempotent() {
    let mut cache = SessionCache::new();
    let ctx = ContextId(4);
    let info = cache_four_member_session(&mut cache, ctx, 8);
    let bad = info.validator_groups[0][1];
    let report = |cache: &mut SessionCache| {
        cache
            .report_bad(BadValidators {
                session_index: 8,
                group_index: session_cache::types::GroupIndex(0),
                bad_validators: vec![bad],
            })
            .unwrap();
    };
    report(&mut cache);
    let once = match cache.with_session_info(ctx) {
        Lookup::Found(i) => i.validator_groups[0].clone(),
        other => panic!("expected a cache hit, got {:?}", other),
    };
    report(&mut cache);
    let twice = match cache.with_session_info(ctx) {
        Lookup::Found(i) => i.validator_groups[0].clone(),
        other => panic!("expected a cache hit, got {:?}", other),
    };
    assert_eq!(once, twice);
    assert_eq!(once[0], bad);
}

#[test]
fn query_failed_is_its_own_error() {
    // Produced by the integrator when a transport query fails; it is
    // distinct from every answer the cache itself gives.
    assert_ne!(Error::QueryFailed, Error::NoSuchSession(0));
    assert_ne!(Error::QueryFailed, Error::ReportAgainstUncachedSession);
    assert_eq!(Error::QueryFailed, Error::QueryFailed);
}

#[test]
fn touching_a_context_refreshes_its_place() {
    let mut cache = SessionCache::new();
    for i in 1..=5u64 {
        cache.supply_session_index(ContextId(i), i as u32);
    }
    // Touch the oldest entry: it becomes the most recently used.
    assert!(matches!(
        cache.with_session_info(ContextId(1)),
        Lookup::NeedSessionData(1)
    ));
    // A sixth context now displaces context 2, not context 1.
    cache.supply_session_index(ContextId(6), 6);
    assert!(matches!(
        cache.with_session_info(ContextId(1)),
        Lookup::NeedSessionData(1)
    ));
    assert!(matches!(
        cache.with_session_info(ContextId(2)),
        Lookup::NeedSessionIndex
    ));
}

#[test]
fn touching_a_session_refreshes_its_place() {
    let mut cache = SessionCache::new();
    cache_session(&mut cache, ContextId(1), 1);
    cache_session(&mut cache, ContextId(2), 2);
    // Touch session 1: session 2 becomes the least recently used.
    assert!(matches!(
        cache.with_session_info(ContextId(1)),
        Lookup::Found(_)
    ));
    cache_session(&mut cache, ContextId(3), 3);
    assert!(matches!(
        cache.with_session_info(ContextId(1)),
        Lookup::Found(_)
    ));
    assert!(matches!(
        cache.with_session_info(ContextId(2)),
        Lookup::NeedSessionData(2)
    ));
}
