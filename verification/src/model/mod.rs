//! The cached entity records, the values the store holds, and small result
//! types of the query layer.

use vstd::prelude::*;

pub mod redis_key;

use redis_key::RedisKey;

verus! {

/// The target of one permission overwrite entry.
#[derive(Clone, Copy, Debug, PartialEq, Eq)]
pub enum PermissionOverwriteType {
    Member(u64),
    Role(u64),
}

/// One allow/deny pair attached to a text channel for a member or role.
#[derive(Clone, Copy, Debug, PartialEq, Eq)]
pub struct PermissionOverwrite {
    pub kind: PermissionOverwriteType,
    pub allow: u64,
    pub deny: u64,
}

/// A cached text channel; the only channel form that carries overwrites.
#[derive(Debug, PartialEq, Eq)]
pub struct CachedTextChannel {
    pub guild_id: Option<u64>,
    pub id: u64,
    pub name: String,
    pub permission_overwrites: Vec<PermissionOverwrite>,
}

/// A cached thread, public or private; overwrites live on its parent.
#[derive(Debug, PartialEq, Eq)]
pub struct CachedThread {
    pub guild_id: Option<u64>,
    pub id: u64,
    pub name: String,
    pub parent_id: Option<u64>,
}

/// A cached channel: a tagged union over the representable channel kinds.
#[derive(Debug, PartialEq, Eq)]
pub enum CachedChannel {
    PrivateThread(CachedThread),
    PublicThread(CachedThread),
    Text(CachedTextChannel),
}

impl CachedChannel {
    pub open spec fn spec_guild_id(&self) -> Option<u64> {
        match self {
            CachedChannel::PrivateThread(c) => c.guild_id,
            CachedChannel::PublicThread(c) => c.guild_id,
            CachedChannel::Text(c) => c.guild_id,
        }
    }

    pub open spec fn spec_id(&self) -> u64 {
        match self {
            CachedChannel::PrivateThread(c) => c.id,
            CachedChannel::PublicThread(c) => c.id,
            CachedChannel::Text(c) => c.id,
        }
    }

    pub open spec fn spec_name(&self) -> Seq<char> {
        match self {
            CachedChannel::PrivateThread(c) => c.name@,
            CachedChannel::PublicThread(c) => c.name@,
            CachedChannel::Text(c) => c.name@,
        }
    }

    /// The owning guild, when known.
    pub fn guild_id(&self) -> (r: Option<u64>)
        ensures
            r == self.spec_guild_id(),
    {
        match self {
            CachedChannel::PrivateThread(c) => c.guild_id,
            CachedChannel::PublicThread(c) => c.guild_id,
            CachedChannel::Text(c) => c.guild_id,
        }
    }

    pub fn id(&self) -> (r: u64)
        ensures
            r == self.spec_id(),
    {
        match self {
            CachedChannel::PrivateThread(c) => c.id,
            CachedChannel::PublicThread(c) => c.id,
            CachedChannel::Text(c) => c.id,
        }
    }

    pub fn name(&self) -> (r: &str)
        ensures
            r@ == self.spec_name(),
    {
        match self {
            CachedChannel::PrivateThread(c) => c.name.as_str(),
            CachedChannel::PublicThread(c) => c.name.as_str(),
            CachedChannel::Text(c) => c.name.as_str(),
        }
    }

    /// The address this channel record is cached under.
    pub open spec fn spec_addr(&self) -> RedisKey {
        RedisKey::Channel { guild: self.spec_guild_id(), channel: self.spec_id() }
    }

    pub fn addr(&self) -> (r: RedisKey)
        ensures
            r == self.spec_addr(),
    {
        RedisKey::Channel { guild: self.guild_id(), channel: self.id() }
    }
}

/// A cached guild record.
#[derive(Debug, PartialEq, Eq)]
pub struct CachedGuild {
    pub icon: Option<String>,
    pub id: u64,
    pub name: String,
    pub owner_id: u64,
}

/// The bot's own identity record; one per process.
#[derive(Debug, PartialEq, Eq)]
pub struct CachedCurrentUser {
    pub avatar: Option<String>,
    pub discriminator: String,
    pub id: u64,
    pub name: String,
}

/// A cached guild member; its identity is the (guild, user) pair.
#[derive(Debug, PartialEq, Eq)]
pub struct CachedMember {
    pub guild_id: u64,
    pub nick: Option<String>,
    pub roles: Vec<u64>,
    pub user_id: u64,
}

/// Field-wise agreement of two member records, with the role list compared
/// by contents. This is what a clone preserves: a `Vec` value is not
/// spec-equal to its copy, only its contents are.
pub open spec fn same_member(a: CachedMember, b: CachedMember) -> bool {
    a.guild_id == b.guild_id && a.nick == b.nick && a.roles@ == b.roles@ && a.user_id
        == b.user_id
}

impl Clone for CachedMember {
    fn clone(&self) -> (res: Self)
        ensures
            same_member(res, *self),
    {
        CachedMember {
            guild_id: self.guild_id,
            nick: clone_opt_string(&self.nick),
            roles: clone_u64_vec(&self.roles),
            user_id: self.user_id,
        }
    }
}

/// A cached role record. `position` is informational and takes no part in
/// permission resolution.
#[derive(Debug, PartialEq, Eq)]
pub struct CachedRole {
    pub id: u64,
    pub name: String,
    pub permissions: u64,
    pub position: i64,
}

/// One shard's gateway session: resume token and last sequence number.
#[derive(Debug, PartialEq, Eq)]
pub struct SessionInfo {
    pub session_id: String,
    pub sequence: u64,
}

/// The mutable fields carried by a member-update event.
#[derive(Debug, PartialEq, Eq)]
pub struct MemberUpdate {
    pub guild_id: u64,
    pub nick: Option<String>,
    pub roles: Vec<u64>,
    pub user_id: u64,
}

/// Patch a cached member with the mutable fields of an update: nickname and
/// role list are replaced wholesale, never unioned; the identity is kept.
pub fn merge_member_update(current: CachedMember, update: MemberUpdate) -> (r: CachedMember)
    ensures
        r.guild_id == current.guild_id,
        r.user_id == current.user_id,
        r.nick == update.nick,
        r.roles == update.roles,
{
    CachedMember {
        guild_id: current.guild_id,
        nick: update.nick,
        roles: update.roles,
        user_id: current.user_id,
    }
}

/// A value to be written to the store, paired with enough identity to derive
/// its address.
#[derive(Debug, PartialEq, Eq)]
pub enum CacheValue {
    Channel(CachedChannel),
    CurrentUser(CachedCurrentUser),
    Guild(CachedGuild),
    Member(CachedMember),
    Role { guild: u64, role: CachedRole },
    Sessions(Vec<(u64, SessionInfo)>),
    Shards(u64),
}

impl CacheValue {
    /// The primary address a value is written under.
    pub open spec fn spec_addr(&self) -> RedisKey {
        match self {
            CacheValue::Channel(c) => c.spec_addr(),
            CacheValue::CurrentUser(_) => RedisKey::BotUser,
            CacheValue::Guild(g) => RedisKey::Guild { guild: g.id },
            CacheValue::Member(m) => RedisKey::Member { guild: m.guild_id, user: m.user_id },
            CacheValue::Role { guild, role } => RedisKey::Role {
                guild: Some(*guild),
                role: role.id,
            },
            CacheValue::Sessions(_) => RedisKey::Sessions,
            CacheValue::Shards(_) => RedisKey::Shards,
        }
    }

    pub fn addr(&self) -> (r: RedisKey)
        ensures
            r == self.spec_addr(),
    {
        match self {
            CacheValue::Channel(c) => c.addr(),
            CacheValue::CurrentUser(_) => RedisKey::BotUser,
            CacheValue::Guild(g) => RedisKey::Guild { guild: g.id },
            CacheValue::Member(m) => RedisKey::Member { guild: m.guild_id, user: m.user_id },
            CacheValue::Role { guild, role } => RedisKey::Role {
                guild: Some(*guild),
                role: role.id,
            },
            CacheValue::Sessions(_) => RedisKey::Sessions,
            CacheValue::Shards(_) => RedisKey::Shards,
        }
    }
}

/// How the member record fared during a guild-permission query, so that a
/// follow-up channel-permission query can reuse it.
#[derive(Debug, PartialEq, Eq)]
pub enum MemberLookup {
    Found(CachedMember),
    NotChecked,
    NotFound,
}

/// Cardinalities of the global secondary indices.
#[derive(Clone, Copy, Debug, PartialEq, Eq)]
pub struct CacheStats {
    pub channels: usize,
    pub guilds: usize,
    pub members: usize,
    pub roles: usize,
}

fn clone_opt_string(o: &Option<String>) -> (r: Option<String>)
    ensures
        r == *o,
{
    match o {
        Some(s) => Some(s.clone()),
        None => None,
    }
}

fn clone_u64_vec(v: &Vec<u64>) -> (r: Vec<u64>)
    ensures
        r@ == v@,
{
    let mut r: Vec<u64> = Vec::new();
    let mut i: usize = 0;
    while i < v.len()
        invariant
            0 <= i <= v.len(),
            r@ == v@.take(i as int),
        decreases v.len() - i,
    {
        r.push(v[i]);
        proof {
            assert(r@ =~= v@.take(i as int + 1));
        }
        i += 1;
    }
    proof {
        assert(v@.take(v@.len() as int) =~= v@);
    }
    r
}

} // verus!
