//! The typed errors this core reports.
//!
//! Store-connectivity and value-serialization failures belong to the
//! collaborators that own the connection and the encoding; they never arise
//! inside the core and are therefore not represented here.

use vstd::prelude::*;

verus! {

pub type CacheResult<T> = Result<T, CacheError>;

/// Failures the cache core itself can produce.
#[derive(Clone, Copy, Debug, PartialEq, Eq)]
pub enum CacheError {
    /// A key string did not parse as any known address form: unrecognized
    /// tag, malformed integer, or leftover tokens.
    InvalidKey,
    /// The store returned a value of the wrong shape where a key string was
    /// expected.
    WrongValueKind,
    /// An ownership check was asked about a guild that is not cached.
    MissingGuild,
}

impl CacheError {
    /// A short description, for embedding in caller-side error reports.
    pub fn message(&self) -> (r: &'static str)
    {
        match self {
            CacheError::InvalidKey => "key string could not be parsed as a cache address",
            CacheError::WrongValueKind => "store response was of an incompatible type",
            CacheError::MissingGuild => "guild is not cached",
        }
    }
}

} // verus!
