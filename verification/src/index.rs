//! Secondary-index maintenance rules.
//!
//! Every guild-scoped record that is written also joins two index sets: the
//! global per-type index and the per-guild index of its scope; channels and
//! roles without a known scope join only their global index. The per-guild
//! index is what enumeration and cascade eviction walk.

use vstd::prelude::*;

use crate::model::redis_key::{dec_digits, u64_to_dec, RedisKey};

verus! {

/// The name of one secondary-index set in the store.
#[derive(Clone, Copy, Debug, PartialEq, Eq, Structural)]
pub enum IndexName {
    /// The global channel index.
    Channels,
    /// The global guild index.
    Guilds,
    /// The global member index.
    Members,
    /// The global role index.
    Roles,
    /// The per-guild index holding the encoded address of everything scoped
    /// to that guild.
    GuildScope(u64),
}

impl IndexName {
    /// The set-key string of this index in the store.
    pub open spec fn spec_name(self) -> Seq<char> {
        match self {
            IndexName::Channels => "channel_keys"@,
            IndexName::Guilds => "guild_keys"@,
            IndexName::Members => "member_keys"@,
            IndexName::Roles => "role_keys"@,
            IndexName::GuildScope(g) => "guild_keys:"@ + dec_digits(g as nat),
        }
    }

    pub fn name(&self) -> (r: String)
        ensures
            r@ == self.spec_name(),
    {
        match self {
            IndexName::Channels => "channel_keys".to_owned(),
            IndexName::Guilds => "guild_keys".to_owned(),
            IndexName::Members => "member_keys".to_owned(),
            IndexName::Roles => "role_keys".to_owned(),
            IndexName::GuildScope(g) => {
                let mut r = "guild_keys:".to_owned();
                r.append(u64_to_dec(*g).as_str());
                r
            },
        }
    }
}

/// The index sets an address belongs to, in the order they are updated.
pub open spec fn spec_indices_for(k: RedisKey) -> Seq<IndexName> {
    match k {
        RedisKey::Channel { guild, .. } => match guild {
            Some(g) => seq![IndexName::Channels, IndexName::GuildScope(g)],
            None => seq![IndexName::Channels],
        },
        RedisKey::Guild { .. } => seq![IndexName::Guilds],
        RedisKey::Member { guild, .. } => seq![IndexName::Members, IndexName::GuildScope(guild)],
        RedisKey::Role { guild, .. } => match guild {
            Some(g) => seq![IndexName::Roles, IndexName::GuildScope(g)],
            None => seq![IndexName::Roles],
        },
        _ => Seq::empty(),
    }
}

/// Compute the index memberships that must be updated alongside a write or
/// delete of `k`.
pub fn indices_for(k: &RedisKey) -> (r: Vec<IndexName>)
    ensures
        r@ == spec_indices_for(*k),
{
    let mut r: Vec<IndexName> = Vec::new();
    match k {
        RedisKey::Channel { guild, .. } => {
            r.push(IndexName::Channels);
            if let Some(g) = guild {
                r.push(IndexName::GuildScope(*g));
            }
        },
        RedisKey::Guild { .. } => {
            r.push(IndexName::Guilds);
        },
        RedisKey::Member { guild, .. } => {
            r.push(IndexName::Members);
            r.push(IndexName::GuildScope(*guild));
        },
        RedisKey::Role { guild, .. } => {
            r.push(IndexName::Roles);
            if let Some(g) = guild {
                r.push(IndexName::GuildScope(*g));
            }
        },
        _ => {},
    }
    proof {
        assert(r@ =~= spec_indices_for(*k));
    }
    r
}

} // verus!
