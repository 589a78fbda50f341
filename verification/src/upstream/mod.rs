//! Upstream resolution: the response cache, the pool in front of the upstreams,
//! and the decisions of reconnecting and failing over.

use vstd::prelude::*;

pub mod cache;
pub mod conn;
pub mod conn_laws;
pub mod laws;
pub mod pool;

verus! {

/// How an answer was sourced, for the query log.
#[derive(Debug, Clone, Copy, PartialEq, Eq, Structural)]
pub enum CacheStatus {
    /// The query never consulted the cache.
    Uncached,
    /// Cacheable, but not present: answered by the upstreams.
    Miss,
    /// Served from a fresh cache entry.
    Hit,
    /// Served from an expired entry under serve-stale (RFC 8767).
    Stale,
}

/// The label of a cache status.
pub open spec fn status_label(s: CacheStatus) -> Seq<char> {
    match s {
        CacheStatus::Uncached => "uncached"@,
        CacheStatus::Miss => "miss"@,
        CacheStatus::Hit => "hit"@,
        CacheStatus::Stale => "stale"@,
    }
}

impl CacheStatus {
    /// Short lowercase label for display.
    pub fn label(self) -> (r: &'static str)
        ensures
            r@ == status_label(self),
    {
        match self {
            CacheStatus::Uncached => "uncached",
            CacheStatus::Miss => "miss",
            CacheStatus::Hit => "hit",
            CacheStatus::Stale => "stale",
        }
    }
}

} // verus!
