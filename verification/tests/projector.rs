use redcache::config::CacheConfig;
use redcache::model::redis_key::RedisKey;
use redcache::model::{
    merge_member_update, CacheValue, CachedChannel, CachedCurrentUser, CachedGuild, CachedMember,
    CachedRole, CachedTextChannel, MemberUpdate, SessionInfo,
};
use redcache::project::{CacheEvent, CacheOp, GuildSnapshot};
use redcache::Cache;

fn plain_cache() -> Cache {
    Cache::new()
}

fn ttl_cache(seconds: u64) -> Cache {
    Cache::with_config(CacheConfig { member_ttl: Some(seconds), superuser: None })
}

fn text_channel(guild: u64, id: u64) -> CachedChannel {
    CachedChannel::Text(CachedTextChannel {
        guild_id: Some(guild),
        id,
        name: String::from("general"),
        permission_overwrites: vec![],
    })
}

fn member(guild: u64, user: u64) -> CachedMember {
    CachedMember { guild_id: guild, nick: None, roles: vec![], user_id: user }
}

fn role(id: u64) -> CachedRole {
    CachedRole { id, name: String::from("role"), permissions: 0, position: 0 }
}

fn guild(id: u64, owner: u64) -> CachedGuild {
    CachedGuild { icon: None, id, name: String::from("guild"), owner_id: owner }
}

#[test]
fn channel_create_writes_the_channel() {
    let ops = plain_cache().update(CacheEvent::ChannelCreate(text_channel(1, 2)));
    assert_eq!(
        ops,
        vec![CacheOp::Put {
            key: RedisKey::Channel { guild: Some(1), channel: 2 },
            value: CacheValue::Channel(text_channel(1, 2)),
            ttl: None,
        }]
    );
}

#[test]
fn channel_delete_removes_by_address() {
    let ops = plain_cache().update(CacheEvent::ChannelDelete(text_channel(1, 2)));
    assert_eq!(
        ops,
        vec![CacheOp::Delete { key: RedisKey::Channel { guild: Some(1), channel: 2 } }]
    );
}

#[test]
fn guild_create_evicts_before_repopulating() {
    let snapshot = GuildSnapshot {
        guild: guild(1, 7),
        channels: vec![text_channel(1, 10), text_channel(1, 11)],
        roles: vec![role(20)],
        members: vec![member(1, 30)],
    };
    let ops = ttl_cache(60).update(CacheEvent::GuildCreate(snapshot));
    assert_eq!(
        ops,
        vec![
            CacheOp::EvictScope { guild: 1 },
            CacheOp::Put {
                key: RedisKey::Channel { guild: Some(1), channel: 10 },
                value: CacheValue::Channel(text_channel(1, 10)),
                ttl: None,
            },
            CacheOp::Put {
                key: RedisKey::Channel { guild: Some(1), channel: 11 },
                value: CacheValue::Channel(text_channel(1, 11)),
                ttl: None,
            },
            CacheOp::Put {
                key: RedisKey::Role { guild: Some(1), role: 20 },
                value: CacheValue::Role { guild: 1, role: role(20) },
                ttl: None,
            },
            CacheOp::Put {
                key: RedisKey::Member { guild: 1, user: 30 },
                value: CacheValue::Member(member(1, 30)),
                ttl: Some(60),
            },
            CacheOp::Put {
                key: RedisKey::Guild { guild: 1 },
                value: CacheValue::Guild(guild(1, 7)),
                ttl: None,
            },
        ]
    );
}

#[test]
fn guild_delete_evicts_the_scope() {
    let ops = plain_cache().update(CacheEvent::GuildDelete(9));
    assert_eq!(ops, vec![CacheOp::EvictScope { guild: 9 }]);
}

#[test]
fn member_add_respects_ttl_configuration() {
    let ops = plain_cache().update(CacheEvent::MemberAdd(member(1, 2)));
    assert_eq!(
        ops,
        vec![CacheOp::Put {
            key: RedisKey::Member { guild: 1, user: 2 },
            value: CacheValue::Member(member(1, 2)),
            ttl: None,
        }]
    );
    let ops = ttl_cache(30).update(CacheEvent::MemberAdd(member(1, 2)));
    assert_eq!(
        ops,
        vec![CacheOp::Put {
            key: RedisKey::Member { guild: 1, user: 2 },
            value: CacheValue::Member(member(1, 2)),
            ttl: Some(30),
        }]
    );
}

#[test]
fn member_remove_deletes_the_pair_address() {
    let ops = plain_cache().update(CacheEvent::MemberRemove { guild: 1, user: 2 });
    assert_eq!(ops, vec![CacheOp::Delete { key: RedisKey::Member { guild: 1, user: 2 } }]);
}

#[test]
fn member_update_becomes_a_read_merge_write() {
    let update = MemberUpdate {
        guild_id: 1,
        nick: Some(String::from("b")),
        roles: vec![5],
        user_id: 2,
    };
    let ops = plain_cache().update(CacheEvent::MemberUpdate(update));
    let expected = MemberUpdate {
        guild_id: 1,
        nick: Some(String::from("b")),
        roles: vec![5],
        user_id: 2,
    };
    assert_eq!(ops, vec![CacheOp::MergeMember { update: expected }]);
}

#[test]
fn merge_replaces_nick_and_roles_wholesale() {
    let cached = CachedMember {
        guild_id: 1,
        nick: Some(String::from("a")),
        roles: vec![41],
        user_id: 2,
    };
    let update = MemberUpdate {
        guild_id: 1,
        nick: Some(String::from("b")),
        roles: vec![52],
        user_id: 2,
    };
    let merged = merge_member_update(cached, update);
    assert_eq!(
        merged,
        CachedMember { guild_id: 1, nick: Some(String::from("b")), roles: vec![52], user_id: 2 }
    );
}

#[test]
fn fragment_events_write_only_when_a_member_is_present() {
    let c = ttl_cache(15);
    let expected = vec![CacheOp::Put {
        key: RedisKey::Member { guild: 1, user: 2 },
        value: CacheValue::Member(member(1, 2)),
        ttl: Some(15),
    }];
    assert_eq!(c.update(CacheEvent::InteractionCreate(Some(member(1, 2)))), expected);
    assert_eq!(c.update(CacheEvent::MessageCreate(Some(member(1, 2)))), expected);
    assert_eq!(c.update(CacheEvent::ReactionAdd(Some(member(1, 2)))), expected);
    assert_eq!(c.update(CacheEvent::ReactionRemove(None)), vec![]);
    assert_eq!(c.update(CacheEvent::ThreadMemberUpdate(None)), vec![]);
}

#[test]
fn member_chunk_writes_every_member() {
    let ops = plain_cache().update(CacheEvent::MemberChunk(vec![member(1, 2), member(1, 3)]));
    assert_eq!(ops.len(), 2);
    assert_eq!(
        ops[1],
        CacheOp::Put {
            key: RedisKey::Member { guild: 1, user: 3 },
            value: CacheValue::Member(member(1, 3)),
            ttl: None,
        }
    );
}

#[test]
fn thread_list_sync_writes_members_then_threads() {
    let ops = plain_cache().update(CacheEvent::ThreadListSync {
        members: vec![member(1, 2)],
        threads: vec![text_channel(1, 3)],
    });
    assert_eq!(
        ops,
        vec![
            CacheOp::Put {
                key: RedisKey::Member { guild: 1, user: 2 },
                value: CacheValue::Member(member(1, 2)),
                ttl: None,
            },
            CacheOp::Put {
                key: RedisKey::Channel { guild: Some(1), channel: 3 },
                value: CacheValue::Channel(text_channel(1, 3)),
                ttl: None,
            },
        ]
    );
}

#[test]
fn ready_and_user_update_write_the_bot_identity() {
    let user = CachedCurrentUser {
        avatar: None,
        discriminator: String::from("0001"),
        id: 42,
        name: String::from("bot"),
    };
    let expected = vec![CacheOp::Put {
        key: RedisKey::BotUser,
        value: CacheValue::CurrentUser(CachedCurrentUser {
            avatar: None,
            discriminator: String::from("0001"),
            id: 42,
            name: String::from("bot"),
        }),
        ttl: None,
    }];
    assert_eq!(plain_cache().update(CacheEvent::Ready(user)), expected);
}

#[test]
fn role_events_carry_their_guild_scope() {
    let c = plain_cache();
    assert_eq!(
        c.update(CacheEvent::RoleCreate { guild: 1, role: role(2) }),
        vec![CacheOp::Put {
            key: RedisKey::Role { guild: Some(1), role: 2 },
            value: CacheValue::Role { guild: 1, role: role(2) },
            ttl: None,
        }]
    );
    assert_eq!(
        c.update(CacheEvent::RoleDelete { guild: 1, role: 2 }),
        vec![CacheOp::Delete { key: RedisKey::Role { guild: Some(1), role: 2 } }]
    );
}

#[test]
fn unmodeled_events_are_no_ops() {
    assert_eq!(plain_cache().update(CacheEvent::Unmodeled), vec![]);
}

#[test]
fn sessions_always_expire_shortly() {
    let sessions = vec![(0u64, SessionInfo { session_id: String::from("s"), sequence: 9 })];
    let op = plain_cache().cache_sessions(sessions);
    assert_eq!(
        op,
        CacheOp::Put {
            key: RedisKey::Sessions,
            value: CacheValue::Sessions(vec![(
                0u64,
                SessionInfo { session_id: String::from("s"), sequence: 9 }
            )]),
            ttl: Some(300),
        }
    );
}

#[test]
fn shard_count_is_a_plain_write() {
    let op = plain_cache().cache_shards(16);
    assert_eq!(
        op,
        CacheOp::Put { key: RedisKey::Shards, value: CacheValue::Shards(16), ttl: None }
    );
}

#[test]
fn values_know_their_address() {
    assert_eq!(
        CacheValue::Member(member(1, 2)).addr(),
        RedisKey::Member { guild: 1, user: 2 }
    );
    assert_eq!(
        CacheValue::Channel(text_channel(1, 3)).addr(),
        RedisKey::Channel { guild: Some(1), channel: 3 }
    );
    assert_eq!(
        CacheValue::Role { guild: 1, role: role(4) }.addr(),
        RedisKey::Role { guild: Some(1), role: 4 }
    );
    assert_eq!(CacheValue::Shards(2).addr(), RedisKey::Shards);
}
