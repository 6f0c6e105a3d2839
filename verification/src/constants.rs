//! Permission bits and fixed policy values.
//!
//! The bit positions follow the upstream permission flag layout, with the
//! mask kept as a plain `u64` so that the resolver's bit arithmetic is fully
//! visible to the verifier.

use vstd::prelude::*;

verus! {

pub const ADMINISTRATOR: u64 = 1u64 << 3;
pub const ADD_REACTIONS: u64 = 1u64 << 6;
pub const SEND_MESSAGES: u64 = 1u64 << 11;
pub const EMBED_LINKS: u64 = 1u64 << 14;
pub const ATTACH_FILES: u64 = 1u64 << 15;
pub const READ_MESSAGE_HISTORY: u64 = 1u64 << 16;
pub const USE_EXTERNAL_EMOJIS: u64 = 1u64 << 18;

/// The "all bits" mask returned for owners, superusers and administrators.
pub const ALL_PERMISSIONS: u64 = u64::MAX;

/// The fixed mask granted in private (guild-less) channels.
pub const PRIVATE_CHANNEL_PERMISSIONS: u64 = SEND_MESSAGES | EMBED_LINKS | ATTACH_FILES
    | USE_EXTERNAL_EMOJIS | ADD_REACTIONS | READ_MESSAGE_HISTORY;

/// Sessions are connection-lifecycle state and always expire after a fixed
/// short time, independent of configuration.
pub const SESSIONS_TTL: u64 = 300;

} // verus!
