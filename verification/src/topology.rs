//! Deriving a localized [`SessionInfo`] out of authoritative session
//! data: local-identity resolution, group membership, randomized retry
//! order, and the mapping of validator indices to discovery keys.

use vstd::prelude::*;

use rand::seq::SliceRandom;

use crate::session_cache::{SessionInfo, SessionInfoV};
use crate::types::{DiscoveryId, Error, GroupIndex, RawSessionData, SessionIndex, ValidatorIndex};

verus! {

/// The key store matched none of the session's validators: the local
/// node is not a validator this session.
pub open spec fn no_local_match(has_key: Seq<bool>) -> bool {
    forall|i: int| 0 <= i < has_key.len() ==> !has_key[i]
}

/// `i` is the first position whose validator the key store matched.
pub open spec fn is_first_match(has_key: Seq<bool>, i: int) -> bool {
    &&& 0 <= i < has_key.len()
    &&& has_key[i]
    &&& forall|j: int| 0 <= j < i ==> !has_key[j]
}

/// Whether some group contains the validator index.
pub open spec fn in_some_group(groups: Seq<Vec<ValidatorIndex>>, v: ValidatorIndex) -> bool {
    exists|g: int| 0 <= g < groups.len() && (#[trigger] groups[g])@.contains(v)
}

/// `g` is the first group that contains `v`.
pub open spec fn is_first_group(groups: Seq<Vec<ValidatorIndex>>, v: ValidatorIndex, g: int) -> bool {
    &&& 0 <= g < groups.len()
    &&& groups[g]@.contains(v)
    &&& forall|j: int| 0 <= j < g ==> !((#[trigger] groups[j])@.contains(v))
}

/// Every member of the group has a discovery key.
pub open spec fn resolvable(g: Seq<ValidatorIndex>, n_keys: nat) -> bool {
    forall|i: int| 0 <= i < g.len() ==> (#[trigger] g[i]).0 < n_keys
}

/// Every member of every group has a discovery key.
pub open spec fn all_groups_resolvable(groups: Seq<Vec<ValidatorIndex>>, n_keys: nat) -> bool {
    forall|g: int| 0 <= g < groups.len() ==> resolvable((#[trigger] groups[g])@, n_keys)
}

/// The group's members translated to their discovery keys, in the
/// group's own order.
pub open spec fn mapped_group(g: Seq<ValidatorIndex>, keys: Seq<DiscoveryId>) -> Seq<DiscoveryId> {
    g.map_values(|vi: ValidatorIndex| keys[vi.0 as int])
}

/// What a successful derivation promises: our position is the first
/// key-store match, our group the first group holding it, and each
/// output group holds exactly the discovery keys of the corresponding
/// input group — in some order, since each group's order is randomized
/// for load balancing.
pub open spec fn valid_derivation(
    d: RawSessionData,
    has_key: Seq<bool>,
    session_index: SessionIndex,
    info: SessionInfoV,
) -> bool {
    &&& is_first_match(has_key, info.our_index.0 as int)
    &&& is_first_group(d.validator_groups@, info.our_index, info.our_group.0 as int)
    &&& all_groups_resolvable(d.validator_groups@, d.discovery_keys@.len())
    &&& info.session_index == session_index
    &&& info.our_group.0 < d.validator_groups@.len()
    &&& info.validator_groups.len() == d.validator_groups@.len()
    &&& forall|g: int|
        0 <= g < d.validator_groups@.len() ==> (#[trigger] info.validator_groups[g]).to_multiset()
            == mapped_group(d.validator_groups@[g]@, d.discovery_keys@).to_multiset()
}

/// Exactly which data inconsistency a failed derivation reports: the
/// local validator belongs to no group, or — when it does — some group
/// member has no discovery key.
pub open spec fn derivation_error(d: RawSessionData, has_key: Seq<bool>, e: Error) -> bool {
    ||| (e == Error::ValidatorWithoutGroup && (exists|i: int|
        #[trigger] is_first_match(has_key, i) && !in_some_group(
            d.validator_groups@,
            ValidatorIndex(i as u32),
        )))
    ||| (e == Error::MissingDiscoveryKey && (exists|i: int|
        #[trigger] is_first_match(has_key, i) && in_some_group(
            d.validator_groups@,
            ValidatorIndex(i as u32),
        )) && !all_groups_resolvable(d.validator_groups@, d.discovery_keys@.len()))
}

/// Resolve the local validator identity: the first validator whose
/// signing key the key store holds, given the store's answer for each
/// validator in index order. `None` means the local node is not a
/// validator this session.
pub fn get_our_index(has_key: &Vec<bool>) -> (r: Option<ValidatorIndex>)
    requires
        has_key@.len() <= u32::MAX as nat,
    ensures
        match r {
            Option::Some(vi) => is_first_match(has_key@, vi.0 as int),
            Option::None => no_local_match(has_key@),
        },
{
    let n = has_key.len();
    let mut i: usize = 0;
    while i < n
        invariant
            n == has_key@.len(),
            0 <= i <= n,
            n <= u32::MAX as nat,
            forall|j: int| 0 <= j < i ==> !has_key@[j],
        decreases n - i,
    {
        if has_key[i] {
            return Some(ValidatorIndex(i as u32));
        }
        i = i + 1;
    }
    None
}

/// Whether the group contains the validator index.
fn group_contains(g: &Vec<ValidatorIndex>, v: ValidatorIndex) -> (b: bool)
    ensures
        b == g@.contains(v),
{
    let n = g.len();
    let mut i: usize = 0;
    while i < n
        invariant
            n == g@.len(),
            0 <= i <= n,
            forall|j: int| 0 <= j < i ==> g@[j] != v,
        decreases n - i,
    {
        if g[i] == v {
            assert(g@[i as int] == v);
            return true;
        }
        i = i + 1;
    }
    false
}

/// Find the group the local validator belongs to: the first group that
/// contains `our`. `None` means the provider's data is inconsistent,
/// since every validator must belong to exactly one group.
pub fn find_our_group(groups: &Vec<Vec<ValidatorIndex>>, our: ValidatorIndex) -> (r: Option<
    GroupIndex,
>)
    requires
        groups@.len() <= u32::MAX as nat,
    ensures
        match r {
            Option::Some(g) => is_first_group(groups@, our, g.0 as int),
            Option::None => !in_some_group(groups@, our),
        },
{
    let n = groups.len();
    let mut i: usize = 0;
    while i < n
        invariant
            n == groups@.len(),
            0 <= i <= n,
            n <= u32::MAX as nat,
            forall|j: int| 0 <= j < i ==> !((#[trigger] groups@[j])@.contains(our)),
        decreases n - i,
    {
        if group_contains(&groups[i], our) {
            return Some(GroupIndex(i as u32));
        }
        i = i + 1;
    }
    None
}

/// Translate one group from validator indices to discovery keys,
/// failing if any member has none.
fn resolve_group(g: &Vec<ValidatorIndex>, keys: &Vec<DiscoveryId>) -> (r: Result<
    Vec<DiscoveryId>,
    Error,
>)
    ensures
        resolvable(g@, keys@.len()) ==> (r matches Ok(out) && out@ == mapped_group(g@, keys@)),
        !resolvable(g@, keys@.len()) ==> r == Err::<Vec<DiscoveryId>, Error>(
            Error::MissingDiscoveryKey,
        ),
{
    let n = g.len();
    let mut out: Vec<DiscoveryId> = Vec::new();
    let mut i: usize = 0;
    while i < n
        invariant
            n == g@.len(),
            0 <= i <= n,
            out@.len() == i as nat,
            forall|j: int| 0 <= j < i ==> (#[trigger] g@[j]).0 < keys@.len(),
            forall|j: int| 0 <= j < i ==> #[trigger] out@[j] == keys@[g@[j].0 as int],
        decreases n - i,
    {
        let vi = g[i];
        if (vi.0 as usize) < keys.len() {
            out.push(keys[vi.0 as usize]);
        } else {
            assert((g@[i as int]).0 >= keys@.len());
            return Err(Error::MissingDiscoveryKey);
        }
        i = i + 1;
    }
    proof {
        assert(out@ =~= mapped_group(g@, keys@));
    }
    Ok(out)
}

/// Relies on rand's `SliceRandom::shuffle` with the thread-local
/// generator: it permutes the slice in place. Which order comes out is
/// chance; what holds of every outcome is that the items are kept.
#[verifier::external_body]
fn shuffle_ids(g: &mut Vec<DiscoveryId>)
    ensures
        final(g)@.len() == old(g)@.len(),
        final(g)@.to_multiset() == old(g)@.to_multiset(),
{
    g.as_mut_slice().shuffle(&mut rand::thread_rng());
}

/// Derive the localized session info from authoritative session data.
///
/// `has_key` holds the key store's answer — does it hold the signing
/// key of this validator? — for each entry of `data.validators`, in
/// index order. Each output group's order is freshly randomized, so
/// that different nodes spread their chunk-fetch load over different
/// group members.
pub fn derive_session_info(
    session_index: SessionIndex,
    data: &RawSessionData,
    has_key: &Vec<bool>,
) -> (r: Result<Option<SessionInfo>, Error>)
    requires
        has_key@.len() == data.validators@.len(),
        has_key@.len() <= u32::MAX as nat,
        data.validator_groups@.len() <= u32::MAX as nat,
    ensures
        match r {
            Result::Ok(opt) => (match opt {
                Option::None => no_local_match(has_key@),
                Option::Some(info) => valid_derivation(*data, has_key@, session_index, info@),
            }),
            Result::Err(e) => derivation_error(*data, has_key@, e),
        },
        (r matches Ok(opt) && opt is None) <==> no_local_match(has_key@),
        (r matches Ok(opt) && opt is Some) <==> (!no_local_match(has_key@) && (exists|i: int|
            #[trigger] is_first_match(has_key@, i) && in_some_group(
                data.validator_groups@,
                ValidatorIndex(i as u32),
            )) && all_groups_resolvable(data.validator_groups@, data.discovery_keys@.len())),
{
    let our_index = match get_our_index(has_key) {
        Option::None => {
            return Ok(None);
        },
        Option::Some(vi) => vi,
    };
    let our_group = match find_our_group(&data.validator_groups, our_index) {
        Option::None => {
            proof {
                assert(is_first_match(has_key@, our_index.0 as int));
                assert(ValidatorIndex(our_index.0 as int as u32) == our_index);
            }
            return Err(Error::ValidatorWithoutGroup);
        },
        Option::Some(g) => g,
    };
    let n = data.validator_groups.len();
    let mut groups: Vec<Vec<DiscoveryId>> = Vec::new();
    let mut gi: usize = 0;
    while gi < n
        invariant
            n == data.validator_groups@.len(),
            0 <= gi <= n,
            groups@.len() == gi as nat,
            forall|j: int|
                0 <= j < gi ==> resolvable(
                    (#[trigger] data.validator_groups@[j])@,
                    data.discovery_keys@.len(),
                ),
            forall|j: int|
                0 <= j < gi ==> (#[trigger] groups@[j])@.to_multiset() == mapped_group(
                    data.validator_groups@[j]@,
                    data.discovery_keys@,
                ).to_multiset(),
            is_first_match(has_key@, our_index.0 as int),
            is_first_group(data.validator_groups@, our_index, our_group.0 as int),
        decreases n - gi,
    {
        let mut mapped = match resolve_group(&data.validator_groups[gi], &data.discovery_keys) {
            Result::Err(e) => {
                proof {
                    assert(!resolvable(
                        data.validator_groups@[gi as int]@,
                        data.discovery_keys@.len(),
                    ));
                    assert(ValidatorIndex(our_index.0 as int as u32) == our_index);
                }
                return Err(e);
            },
            Result::Ok(m) => m,
        };
        shuffle_ids(&mut mapped);
        groups.push(mapped);
        gi = gi + 1;
    }
    let info = SessionInfo { session_index, validator_groups: groups, our_index, our_group };
    proof {
        assert(ValidatorIndex(our_index.0 as int as u32) == our_index);
        assert forall|g: int|
            0 <= g < data.validator_groups@.len() implies (#[trigger] info@.validator_groups[g]).to_multiset()
            == mapped_group(data.validator_groups@[g]@, data.discovery_keys@).to_multiset() by {
            assert(info@.validator_groups[g] == info.validator_groups@[g]@);
        }
    }
    Ok(Some(info))
}

} // verus!
