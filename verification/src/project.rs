//! The event projector: a total mapping from change events to store
//! mutations.
//!
//! Each event kind becomes zero or more [`CacheOp`]s, executed in order by
//! the caller: single records are written or deleted outright, bulk guild
//! snapshots evict the stale scope before repopulating it, member fragments
//! overwrite whatever richer record was cached, and member updates become a
//! read-merge-write that the caller drives with [`crate::model::merge_member_update`].

use vstd::prelude::*;

use crate::constants::SESSIONS_TTL;
use crate::model::redis_key::RedisKey;
use crate::model::{
    CacheValue, CachedChannel, CachedCurrentUser, CachedGuild, CachedMember, CachedRole,
    MemberUpdate, SessionInfo,
};
use crate::Cache;

verus! {

/// One mutation of the cache, in execution order.
#[derive(Debug, PartialEq, Eq)]
pub enum CacheOp {
    /// Write `value` under `key`, expiring after `ttl` seconds when given.
    Put { key: RedisKey, value: CacheValue, ttl: Option<u64> },
    /// Delete the record at `key` and its index memberships.
    Delete { key: RedisKey },
    /// Cascade-evict everything scoped to the guild.
    EvictScope { guild: u64 },
    /// Read the addressed member, merge `update` into it, and write the
    /// result back; dropped silently when no record is cached.
    MergeMember { update: MemberUpdate },
}

/// A full guild snapshot as carried by a guild-became-available event.
#[derive(Debug, PartialEq, Eq)]
pub struct GuildSnapshot {
    pub guild: CachedGuild,
    pub channels: Vec<CachedChannel>,
    pub roles: Vec<CachedRole>,
    pub members: Vec<CachedMember>,
}

/// The closed set of upstream change events, with payloads already decoded
/// into cache records. Events outside the modeled set are `Unmodeled` and
/// produce no mutation.
#[derive(Debug, PartialEq, Eq)]
pub enum CacheEvent {
    ChannelCreate(CachedChannel),
    ChannelDelete(CachedChannel),
    ChannelUpdate(CachedChannel),
    GuildCreate(GuildSnapshot),
    GuildDelete(u64),
    GuildUpdate(CachedGuild),
    InteractionCreate(Option<CachedMember>),
    MemberAdd(CachedMember),
    MemberRemove { guild: u64, user: u64 },
    MemberUpdate(MemberUpdate),
    MemberChunk(Vec<CachedMember>),
    MessageCreate(Option<CachedMember>),
    ReactionAdd(Option<CachedMember>),
    ReactionRemove(Option<CachedMember>),
    Ready(CachedCurrentUser),
    RoleCreate { guild: u64, role: CachedRole },
    RoleDelete { guild: u64, role: u64 },
    RoleUpdate { guild: u64, role: CachedRole },
    ThreadCreate(CachedChannel),
    ThreadDelete(CachedChannel),
    ThreadListSync { members: Vec<CachedMember>, threads: Vec<CachedChannel> },
    ThreadMemberUpdate(Option<CachedMember>),
    ThreadMembersUpdate(Vec<CachedMember>),
    ThreadUpdate(CachedChannel),
    UserUpdate(CachedCurrentUser),
    Unmodeled,
}

/// The write for one channel record.
pub open spec fn spec_channel_put(c: CachedChannel) -> CacheOp {
    CacheOp::Put { key: c.spec_addr(), value: CacheValue::Channel(c), ttl: None }
}

/// The write for one member record: members expire per configuration.
pub open spec fn spec_member_put(cfg: crate::config::CacheConfig, m: CachedMember) -> CacheOp {
    CacheOp::Put {
        key: RedisKey::Member { guild: m.guild_id, user: m.user_id },
        value: CacheValue::Member(m),
        ttl: cfg.member_ttl,
    }
}

/// The write for one role record under its guild scope.
pub open spec fn spec_role_put(guild: u64, role: CachedRole) -> CacheOp {
    CacheOp::Put {
        key: RedisKey::Role { guild: Some(guild), role: role.id },
        value: CacheValue::Role { guild, role },
        ttl: None,
    }
}

pub open spec fn spec_channel_puts(cs: Seq<CachedChannel>) -> Seq<CacheOp> {
    cs.map(|i: int, c: CachedChannel| spec_channel_put(c))
}

pub open spec fn spec_member_puts(
    cfg: crate::config::CacheConfig,
    ms: Seq<CachedMember>,
) -> Seq<CacheOp> {
    ms.map(|i: int, m: CachedMember| spec_member_put(cfg, m))
}

pub open spec fn spec_role_puts(guild: u64, rs: Seq<CachedRole>) -> Seq<CacheOp> {
    rs.map(|i: int, r: CachedRole| spec_role_put(guild, r))
}

pub open spec fn spec_opt_member_put(
    cfg: crate::config::CacheConfig,
    m: Option<CachedMember>,
) -> Seq<CacheOp> {
    match m {
        Some(m) => seq![spec_member_put(cfg, m)],
        None => Seq::empty(),
    }
}

/// The full projection table: what every event kind does to the store.
pub open spec fn spec_update(cfg: crate::config::CacheConfig, ev: CacheEvent) -> Seq<CacheOp> {
    match ev {
        CacheEvent::ChannelCreate(c) => seq![spec_channel_put(c)],
        CacheEvent::ChannelDelete(c) => seq![CacheOp::Delete { key: c.spec_addr() }],
        CacheEvent::ChannelUpdate(c) => seq![spec_channel_put(c)],
        CacheEvent::GuildCreate(gs) => seq![CacheOp::EvictScope { guild: gs.guild.id }]
            + spec_channel_puts(gs.channels@) + spec_role_puts(gs.guild.id, gs.roles@)
            + spec_member_puts(cfg, gs.members@) + seq![
            CacheOp::Put {
                key: RedisKey::Guild { guild: gs.guild.id },
                value: CacheValue::Guild(gs.guild),
                ttl: None,
            },
        ],
        CacheEvent::GuildDelete(guild) => seq![CacheOp::EvictScope { guild }],
        CacheEvent::GuildUpdate(g) => seq![
            CacheOp::Put {
                key: RedisKey::Guild { guild: g.id },
                value: CacheValue::Guild(g),
                ttl: None,
            },
        ],
        CacheEvent::InteractionCreate(m) => spec_opt_member_put(cfg, m),
        CacheEvent::MemberAdd(m) => seq![spec_member_put(cfg, m)],
        CacheEvent::MemberRemove { guild, user } => seq![
            CacheOp::Delete { key: RedisKey::Member { guild, user } },
        ],
        CacheEvent::MemberUpdate(u) => seq![CacheOp::MergeMember { update: u }],
        CacheEvent::MemberChunk(ms) => spec_member_puts(cfg, ms@),
        CacheEvent::MessageCreate(m) => spec_opt_member_put(cfg, m),
        CacheEvent::ReactionAdd(m) => spec_opt_member_put(cfg, m),
        CacheEvent::ReactionRemove(m) => spec_opt_member_put(cfg, m),
        CacheEvent::Ready(u) => seq![
            CacheOp::Put { key: RedisKey::BotUser, value: CacheValue::CurrentUser(u), ttl: None },
        ],
        CacheEvent::RoleCreate { guild, role } => seq![spec_role_put(guild, role)],
        CacheEvent::RoleDelete { guild, role } => seq![
            CacheOp::Delete { key: RedisKey::Role { guild: Some(guild), role } },
        ],
        CacheEvent::RoleUpdate { guild, role } => seq![spec_role_put(guild, role)],
        CacheEvent::ThreadCreate(c) => seq![spec_channel_put(c)],
        CacheEvent::ThreadDelete(c) => seq![CacheOp::Delete { key: c.spec_addr() }],
        CacheEvent::ThreadListSync { members, threads } => spec_member_puts(cfg, members@)
            + spec_channel_puts(threads@),
        CacheEvent::ThreadMemberUpdate(m) => spec_opt_member_put(cfg, m),
        CacheEvent::ThreadMembersUpdate(ms) => spec_member_puts(cfg, ms@),
        CacheEvent::ThreadUpdate(c) => seq![spec_channel_put(c)],
        CacheEvent::UserUpdate(u) => seq![
            CacheOp::Put { key: RedisKey::BotUser, value: CacheValue::CurrentUser(u), ttl: None },
        ],
        CacheEvent::Unmodeled => Seq::empty(),
    }
}

impl Cache {
    /// The write for one channel record.
    pub fn cache_channel(&self, channel: CachedChannel) -> (r: CacheOp)
        ensures
            r == spec_channel_put(channel),
    {
        let key = channel.addr();
        CacheOp::Put { key, value: CacheValue::Channel(channel), ttl: None }
    }

    /// The write for one member record, expiring per configuration.
    pub fn cache_member(&self, member: CachedMember) -> (r: CacheOp)
        ensures
            r == spec_member_put(self.config, member),
    {
        let key = RedisKey::Member { guild: member.guild_id, user: member.user_id };
        CacheOp::Put { key, value: CacheValue::Member(member), ttl: self.config.member_ttl }
    }

    /// The write for one role record under its guild scope.
    pub fn cache_role(&self, guild: u64, role: CachedRole) -> (r: CacheOp)
        ensures
            r == spec_role_put(guild, role),
    {
        let key = RedisKey::Role { guild: Some(guild), role: role.id };
        CacheOp::Put { key, value: CacheValue::Role { guild, role }, ttl: None }
    }

    /// The write for the shard count.
    pub fn cache_shards(&self, shards: u64) -> (r: CacheOp)
        ensures
            r == (CacheOp::Put {
                key: RedisKey::Shards,
                value: CacheValue::Shards(shards),
                ttl: None,
            }),
    {
        CacheOp::Put { key: RedisKey::Shards, value: CacheValue::Shards(shards), ttl: None }
    }

    /// The write for the session set; sessions always use the fixed short
    /// expiry.
    pub fn cache_sessions(&self, sessions: Vec<(u64, SessionInfo)>) -> (r: CacheOp)
        ensures
            r == (CacheOp::Put {
                key: RedisKey::Sessions,
                value: CacheValue::Sessions(sessions),
                ttl: Some(SESSIONS_TTL),
            }),
    {
        CacheOp::Put {
            key: RedisKey::Sessions,
            value: CacheValue::Sessions(sessions),
            ttl: Some(SESSIONS_TTL),
        }
    }

    /// Project one change event onto the mutations that keep the cache in
    /// step with it.
    pub fn update(&self, event: CacheEvent) -> (r: Vec<CacheOp>)
        ensures
            r@ == spec_update(self.config, event),
    {
        let ghost ev0 = event;
        let mut ops: Vec<CacheOp> = Vec::new();
        match event {
            CacheEvent::ChannelCreate(c) => {
                ops.push(self.cache_channel(c));
            },
            CacheEvent::ChannelDelete(c) => {
                let key = c.addr();
                ops.push(CacheOp::Delete { key });
            },
            CacheEvent::ChannelUpdate(c) => {
                ops.push(self.cache_channel(c));
            },
            CacheEvent::GuildCreate(gs) => {
                let GuildSnapshot { guild, channels, roles, members } = gs;
                ops.push(CacheOp::EvictScope { guild: guild.id });
                self.push_channel_puts(&mut ops, channels);
                self.push_role_puts(&mut ops, guild.id, roles);
                self.push_member_puts(&mut ops, members);
                let key = RedisKey::Guild { guild: guild.id };
                ops.push(CacheOp::Put { key, value: CacheValue::Guild(guild), ttl: None });
            },
            CacheEvent::GuildDelete(guild) => {
                ops.push(CacheOp::EvictScope { guild });
            },
            CacheEvent::GuildUpdate(g) => {
                let key = RedisKey::Guild { guild: g.id };
                ops.push(CacheOp::Put { key, value: CacheValue::Guild(g), ttl: None });
            },
            CacheEvent::InteractionCreate(m) => {
                if let Some(m) = m {
                    ops.push(self.cache_member(m));
                }
            },
            CacheEvent::MemberAdd(m) => {
                ops.push(self.cache_member(m));
            },
            CacheEvent::MemberRemove { guild, user } => {
                ops.push(CacheOp::Delete { key: RedisKey::Member { guild, user } });
            },
            CacheEvent::MemberUpdate(u) => {
                ops.push(CacheOp::MergeMember { update: u });
            },
            CacheEvent::MemberChunk(ms) => {
                self.push_member_puts(&mut ops, ms);
            },
            CacheEvent::MessageCreate(m) => {
                if let Some(m) = m {
                    ops.push(self.cache_member(m));
                }
            },
            CacheEvent::ReactionAdd(m) => {
                if let Some(m) = m {
                    ops.push(self.cache_member(m));
                }
            },
            CacheEvent::ReactionRemove(m) => {
                if let Some(m) = m {
                    ops.push(self.cache_member(m));
                }
            },
            CacheEvent::Ready(u) => {
                ops.push(
                    CacheOp::Put {
                        key: RedisKey::BotUser,
                        value: CacheValue::CurrentUser(u),
                        ttl: None,
                    },
                );
            },
            CacheEvent::RoleCreate { guild, role } => {
                ops.push(self.cache_role(guild, role));
            },
            CacheEvent::RoleDelete { guild, role } => {
                ops.push(CacheOp::Delete { key: RedisKey::Role { guild: Some(guild), role } });
            },
            CacheEvent::RoleUpdate { guild, role } => {
                ops.push(self.cache_role(guild, role));
            },
            CacheEvent::ThreadCreate(c) => {
                ops.push(self.cache_channel(c));
            },
            CacheEvent::ThreadDelete(c) => {
                let key = c.addr();
                ops.push(CacheOp::Delete { key });
            },
            CacheEvent::ThreadListSync { members, threads } => {
                self.push_member_puts(&mut ops, members);
                self.push_channel_puts(&mut ops, threads);
            },
            CacheEvent::ThreadMemberUpdate(m) => {
                if let Some(m) = m {
                    ops.push(self.cache_member(m));
                }
            },
            CacheEvent::ThreadMembersUpdate(ms) => {
                self.push_member_puts(&mut ops, ms);
            },
            CacheEvent::ThreadUpdate(c) => {
                ops.push(self.cache_channel(c));
            },
            CacheEvent::UserUpdate(u) => {
                ops.push(
                    CacheOp::Put {
                        key: RedisKey::BotUser,
                        value: CacheValue::CurrentUser(u),
                        ttl: None,
                    },
                );
            },
            CacheEvent::Unmodeled => {},
        }
        proof {
            assert(ops@ =~= spec_update(self.config, ev0));
        }
        ops
    }

    fn push_channel_puts(&self, ops: &mut Vec<CacheOp>, channels: Vec<CachedChannel>)
        ensures
            final(ops)@ == old(ops)@ + spec_channel_puts(channels@),
    {
        let ghost r0 = ops@;
        let ghost orig = channels@;
        let mut channels = channels;
        while channels.len() > 0
            invariant
                channels@ =~= orig.skip(orig.len() - channels@.len()),
                channels@.len() <= orig.len(),
                ops@ == r0 + spec_channel_puts(orig.take(orig.len() - channels@.len())),
            decreases channels@.len(),
        {
            let ghost done = orig.len() - channels@.len();
            proof {
                assert(orig.skip(done)[0] == orig[done]);
            }
            let c = channels.remove(0);
            ops.push(self.cache_channel(c));
            proof {
                assert(channels@ =~= orig.skip(done + 1));
                assert(ops@ =~= r0 + spec_channel_puts(orig.take(done + 1)));
            }
        }
        proof {
            assert(orig.take(orig.len() as int) =~= orig);
        }
    }

    fn push_role_puts(&self, ops: &mut Vec<CacheOp>, guild: u64, roles: Vec<CachedRole>)
        ensures
            final(ops)@ == old(ops)@ + spec_role_puts(guild, roles@),
    {
        let ghost r0 = ops@;
        let ghost orig = roles@;
        let mut roles = roles;
        while roles.len() > 0
            invariant
                roles@ =~= orig.skip(orig.len() - roles@.len()),
                roles@.len() <= orig.len(),
                ops@ == r0 + spec_role_puts(guild, orig.take(orig.len() - roles@.len())),
            decreases roles@.len(),
        {
            let ghost done = orig.len() - roles@.len();
            proof {
                assert(orig.skip(done)[0] == orig[done]);
            }
            let role = roles.remove(0);
            ops.push(self.cache_role(guild, role));
            proof {
                assert(roles@ =~= orig.skip(done + 1));
                assert(ops@ =~= r0 + spec_role_puts(guild, orig.take(done + 1)));
            }
        }
        proof {
            assert(orig.take(orig.len() as int) =~= orig);
        }
    }

    fn push_member_puts(&self, ops: &mut Vec<CacheOp>, members: Vec<CachedMember>)
        ensures
            final(ops)@ == old(ops)@ + spec_member_puts(self.config, members@),
    {
        let ghost r0 = ops@;
        let ghost orig = members@;
        let mut members = members;
        while members.len() > 0
            invariant
                members@ =~= orig.skip(orig.len() - members@.len()),
                members@.len() <= orig.len(),
                ops@ == r0 + spec_member_puts(self.config, orig.take(orig.len() - members@.len())),
            decreases members@.len(),
        {
            let ghost done = orig.len() - members@.len();
            proof {
                assert(orig.skip(done)[0] == orig[done]);
            }
            let m = members.remove(0);
            ops.push(self.cache_member(m));
            proof {
                assert(members@ =~= orig.skip(done + 1));
                assert(ops@ =~= r0 + spec_member_puts(self.config, orig.take(done + 1)));
            }
        }
        proof {
            assert(orig.take(orig.len() as int) =~= orig);
        }
    }
}

} // verus!
