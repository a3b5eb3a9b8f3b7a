//! A bounded, two-level cache of per-session validator topology.
//!
//! A caller resolves a context identifier (such as a chain head) to a
//! session index, and the session index to a localized [`session_cache::SessionInfo`]
//! snapshot; both resolution steps are answered from small
//! least-recently-used stores whenever possible, so the expensive
//! external runtime is asked only on a miss. A feedback entry point
//! demotes unresponsive validators within a cached group's retry order.

pub mod lru_model;
pub mod lru_store;
pub mod reorder;
pub mod session_cache;
pub mod topology;
pub mod types;
