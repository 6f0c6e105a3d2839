//! Configuration consumed by the cache core.

use vstd::prelude::*;

verus! {

/// Per-instance configuration. It is passed explicitly rather than kept as
/// global state so that several independently configured caches can coexist.
#[derive(Clone, Copy, Debug, PartialEq, Eq)]
pub struct CacheConfig {
    /// Time-to-live in seconds for cached members. `None` means members never
    /// expire automatically.
    pub member_ttl: Option<u64>,
    /// A user that is granted every permission in every guild without any
    /// lookup. `None` means no such user exists.
    pub superuser: Option<u64>,
}

impl Default for CacheConfig {
    /// Members never expire and no superuser is configured.
    fn default() -> (r: Self)
        ensures
            r.member_ttl is None,
            r.superuser is None,
    {
        CacheConfig { member_ttl: None, superuser: None }
    }
}

} // verus!
