//! Core of an event-driven cache for a guild / channel / role / member object
//! graph that lives in an external key-value store.
//!
//! The crate contains the parts of the cache that are pure computation and can
//! therefore be verified: the key codec that maps typed addresses to flat
//! store keys and back, the secondary-index rules, the mutation planner that
//! turns high-level operations into store commands, an in-memory store that
//! executes those commands (the reference model of the backing store), the
//! event projector that maps change events to mutations, and the permission
//! resolver. Network transport and value serialization are collaborators that
//! drive this core from outside.

use vstd::prelude::*;

pub mod config;
pub mod constants;
pub mod error;
pub mod fetch;
pub mod index;
pub mod model;
pub mod project;
pub mod store;
pub mod util;

verus! {

/// The cache instance: owns the configuration that the event projector and
/// the permission resolver consult. The connection to the backing store is
/// held by the surrounding I/O layer, which executes the command plans this
/// core produces.
pub struct Cache {
    pub config: config::CacheConfig,
}

impl Cache {
    /// A cache with the default configuration: members never expire and no
    /// superuser is configured.
    pub fn new() -> (r: Cache)
        ensures
            r.config.member_ttl is None,
            r.config.superuser is None,
    {
        Cache { config: config::CacheConfig { member_ttl: None, superuser: None } }
    }

    /// A cache with an explicit configuration.
    pub fn with_config(config: config::CacheConfig) -> (r: Cache)
        ensures
            r.config == config,
    {
        Cache { config }
    }
}

} // verus!
