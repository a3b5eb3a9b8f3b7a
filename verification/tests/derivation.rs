//! Deriving session info: local-identity resolution, group lookup,
//! shuffling, key translation, and the reorder primitive.

use session_cache::reorder::reorder_group;
use session_cache::topology::{derive_session_info, find_our_group, get_our_index};
use session_cache::types::{
    DiscoveryId, Error, GroupIndex, RawSessionData, ValidatorId, ValidatorIndex,
};

fn vi(list: &[u32]) -> Vec<ValidatorIndex> {
    list.iter().copied().map(ValidatorIndex).collect()
}

#[test]
fn our_index_is_first_match() {
    assert_eq!(
        get_our_index(&vec![false, true, true]),
        Some(ValidatorIndex(1))
    );
    assert_eq!(get_our_index(&vec![true, false]), Some(ValidatorIndex(0)));
    assert_eq!(get_our_index(&vec![false, false]), None);
    assert_eq!(get_our_index(&Vec::new()), None);
}

#[test]
fn our_group_is_first_containing_group() {
    let groups = vec![vi(&[2, 3]), vi(&[0, 1]), vi(&[1, 4])];
    assert_eq!(
        find_our_group(&groups, ValidatorIndex(1)),
        Some(GroupIndex(1))
    );
    assert_eq!(
        find_our_group(&groups, ValidatorIndex(3)),
        Some(GroupIndex(0))
    );
    assert_eq!(find_our_group(&groups, ValidatorIndex(9)), None);
}

fn sample_data() -> RawSessionData {
    RawSessionData {
        validators: (0..6).map(|i| ValidatorId(20 + i)).collect(),
        discovery_keys: (0..6).map(|i| DiscoveryId(200 + i)).collect(),
        validator_groups: vec![vi(&[0, 1, 2]), vi(&[3, 4, 5])],
    }
}

#[test]
fn derivation_localizes_the_session() {
    let data = sample_data();
    let has_key = vec![false, false, false, false, true, false];
    let info = derive_session_info(42, &data, &has_key)
        .unwrap()
        .expect("a validator with a matching key");
    assert_eq!(info.session_index, 42);
    assert_eq!(info.our_index, ValidatorIndex(4));
    assert_eq!(info.our_group, GroupIndex(1));
    assert_eq!(info.validator_groups.len(), 2);
}

#[test]
fn shuffled_groups_are_permutations() {
    let data = sample_data();
    let has_key = vec![true, false, false, false, false, false];
    let info = derive_session_info(1, &data, &has_key)
        .unwrap()
        .expect("a validator with a matching key");
    // Each output group holds exactly the discovery keys of the
    // corresponding input group, in some order.
    for (g, out) in info.validator_groups.iter().enumerate() {
        let mut got: Vec<u64> = out.iter().map(|d| d.0).collect();
        got.sort_unstable();
        let mut want: Vec<u64> = data.validator_groups[g]
            .iter()
            .map(|v| data.discovery_keys[v.0 as usize].0)
            .collect();
        want.sort_unstable();
        assert_eq!(got, want);
    }
}

#[test]
fn non_validator_derives_nothing() {
    let data = sample_data();
    let has_key = vec![false; 6];
    assert_eq!(derive_session_info(1, &data, &has_key), Ok(None));
}

#[test]
fn validator_without_group_is_fatal() {
    let mut data = sample_data();
    // Our validator (index 0) belongs to no group.
    data.validator_groups = vec![vi(&[1, 2]), vi(&[3, 4, 5])];
    let has_key = vec![true, false, false, false, false, false];
    assert_eq!(
        derive_session_info(1, &data, &has_key),
        Err(Error::ValidatorWithoutGroup)
    );
}

#[test]
fn missing_discovery_key_is_fatal() {
    let mut data = sample_data();
    // A group names a validator index with no discovery key.
    data.validator_groups = vec![vi(&[0, 1]), vi(&[3, 9])];
    let has_key = vec![true, false, false, false, false, false];
    assert_eq!(
        derive_session_info(1, &data, &has_key),
        Err(Error::MissingDiscoveryKey)
    );
}

#[test]
fn reorder_puts_reported_members_first() {
    // Group [A, B, C, D] is tried in reverse: D, C, B, A. Reporting B
    // yields [B, A, C, D]: B is now tried last, membership unchanged.
    let a = DiscoveryId(1);
    let b = DiscoveryId(2);
    let c = DiscoveryId(3);
    let d = DiscoveryId(4);
    let group = vec![a, b, c, d];
    let reordered = reorder_group(&group, &vec![b]);
    assert_eq!(reordered, vec![b, a, c, d]);
}

#[test]
fn reorder_ignores_absent_identities() {
    let a = DiscoveryId(1);
    let b = DiscoveryId(2);
    let stranger = DiscoveryId(9);
    let group = vec![a, b];
    let reordered = reorder_group(&group, &vec![stranger, b]);
    assert_eq!(reordered, vec![b, a]);
}

#[test]
fn reorder_twice_matches_reorder_once() {
    let ids: Vec<DiscoveryId> = (1..=5).map(DiscoveryId).collect();
    let bad = vec![ids[3], ids[1]];
    let once = reorder_group(&ids, &bad);
    let twice = reorder_group(&once, &bad);
    assert_eq!(once, twice);
    assert_eq!(once, vec![ids[3], ids[1], ids[0], ids[2], ids[4]]);
}
