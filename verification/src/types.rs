//! Plain identifiers and raw session data, as the cache sees them.
//!
//! The surrounding node deals in chain hashes and public keys; this
//! library only compares and rearranges such values, so each is carried
//! as a fixed-size numeric stand-in supplied by the integrator.

use vstd::prelude::*;

verus! {

/// Identifier of the context (for instance a chain head) a caller is
/// working under; the first-level cache key.
#[derive(Clone, Copy, Debug, PartialEq, Eq, Structural)]
pub struct ContextId(pub u64);

/// Index of a session, assigned by the external runtime.
pub type SessionIndex = u32;

/// Position of a validator within a session's full validator list.
#[derive(Clone, Copy, Debug, PartialEq, Eq, Structural)]
pub struct ValidatorIndex(pub u32);

/// Position of a validator group within a session.
#[derive(Clone, Copy, Debug, PartialEq, Eq, Structural)]
pub struct GroupIndex(pub u32);

/// Signing identity of a validator, as the key store knows it.
#[derive(Clone, Copy, Debug, PartialEq, Eq, Structural)]
pub struct ValidatorId(pub u64);

/// Network-discovery identity of a validator: the address-like key the
/// chunk-fetch layer uses to reach it.
#[derive(Clone, Copy, Debug, PartialEq, Eq, Structural)]
pub struct DiscoveryId(pub u64);

/// Raw per-session data as the external provider hands it out:
/// the full validator list, the discovery key for each validator
/// (aligned by index), and the groups as lists of validator indices.
#[derive(Clone, Debug, PartialEq, Eq)]
pub struct RawSessionData {
    pub validators: Vec<ValidatorId>,
    pub discovery_keys: Vec<DiscoveryId>,
    pub validator_groups: Vec<Vec<ValidatorIndex>>,
}

/// Everything that can go wrong while resolving or reporting.
#[derive(Clone, Copy, Debug, PartialEq, Eq, Structural)]
pub enum Error {
    /// The external session-index or session-info query failed or was
    /// cancelled. Produced by the integrator driving the queries, never
    /// by the cache itself.
    QueryFailed,
    /// The external provider reports that the session does not exist.
    NoSuchSession(SessionIndex),
    /// A bad-validators report named a session that is not cached.
    ReportAgainstUncachedSession,
    /// A bad-validators report named a group index out of range.
    ReportAgainstInvalidGroup,
    /// The provider's data is self-inconsistent: the local validator
    /// belongs to no group.
    ValidatorWithoutGroup,
    /// The provider's data is self-inconsistent: a group member has no
    /// discovery key.
    MissingDiscoveryKey,
}

} // verus!

