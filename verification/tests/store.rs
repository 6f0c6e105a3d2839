use redcache::index::IndexName;
use redcache::model::redis_key::RedisKey;
use redcache::store::{
    delete_plan, evict_scope_plan, put_all_plan, put_plan, MemStore, StoreCommand,
};

fn member_key(guild: u64, user: u64) -> RedisKey {
    RedisKey::Member { guild, user }
}

#[test]
fn put_adds_key_to_every_index() {
    let mut store = MemStore::new();
    let key = member_key(1, 2);
    store.put(key, vec![1, 2, 3], None);
    assert_eq!(store.get(&key), Some(vec![1, 2, 3]));
    assert!(store.contains(&key));
    // membership in both the global member index and the guild index
    assert!(store.smembers(&IndexName::Members).contains(&key));
    assert!(store.smembers(&IndexName::GuildScope(1)).contains(&key));
    assert_eq!(store.scard(&IndexName::Members), 1);
    assert_eq!(store.scard(&IndexName::GuildScope(1)), 1);
}

#[test]
fn delete_removes_key_from_every_index() {
    let mut store = MemStore::new();
    let key = member_key(1, 2);
    store.put(key, vec![1], None);
    store.delete(key);
    assert!(!store.contains(&key));
    assert_eq!(store.get(&key), None);
    assert!(!store.smembers(&IndexName::Members).contains(&key));
    assert!(!store.smembers(&IndexName::GuildScope(1)).contains(&key));
    assert_eq!(store.scard(&IndexName::Members), 0);
}

#[test]
fn put_replaces_value_and_ttl() {
    let mut store = MemStore::new();
    let key = RedisKey::Guild { guild: 9 };
    store.put(key, vec![1], None);
    store.put(key, vec![2], Some(60));
    assert_eq!(store.get(&key), Some(vec![2]));
    assert_eq!(store.scard(&IndexName::Guilds), 1);
}

#[test]
fn put_all_last_write_wins() {
    let mut store = MemStore::new();
    let key = RedisKey::Guild { guild: 9 };
    store.put_all(vec![(key, vec![1]), (key, vec![2])], None);
    assert_eq!(store.get(&key), Some(vec![2]));
}

#[test]
fn evict_scope_clears_the_guild_and_nothing_else() {
    let mut store = MemStore::new();
    // guild 1 with two channels, one role, two members
    let g1 = RedisKey::Guild { guild: 1 };
    let c1 = RedisKey::Channel { guild: Some(1), channel: 10 };
    let c2 = RedisKey::Channel { guild: Some(1), channel: 11 };
    let r1 = RedisKey::Role { guild: Some(1), role: 20 };
    let m1 = member_key(1, 30);
    let m2 = member_key(1, 31);
    // guild 2 with one of each
    let g2 = RedisKey::Guild { guild: 2 };
    let c3 = RedisKey::Channel { guild: Some(2), channel: 12 };
    let m3 = member_key(2, 30);
    for key in [g1, c1, c2, r1, m1, m2, g2, c3, m3] {
        store.put(key, vec![0xab], None);
    }
    store.evict_scope(1);
    // everything scoped to guild 1 is gone, including the guild record and
    // its index set
    for key in [g1, c1, c2, r1, m1, m2] {
        assert!(!store.contains(&key));
    }
    assert!(store.smembers(&IndexName::GuildScope(1)).is_empty());
    assert_eq!(store.scard(&IndexName::GuildScope(1)), 0);
    assert!(!store.smembers(&IndexName::Guilds).contains(&g1));
    // guild 2 is untouched
    for key in [g2, c3, m3] {
        assert!(store.contains(&key));
    }
    assert!(store.smembers(&IndexName::GuildScope(2)).contains(&c3));
    assert!(store.smembers(&IndexName::GuildScope(2)).contains(&m3));
    assert!(store.smembers(&IndexName::Guilds).contains(&g2));
}

#[test]
fn stats_counts_global_indices() {
    let mut store = MemStore::new();
    store.put(RedisKey::Guild { guild: 1 }, vec![1], None);
    store.put(RedisKey::Channel { guild: Some(1), channel: 2 }, vec![1], None);
    store.put(RedisKey::Channel { guild: None, channel: 3 }, vec![1], None);
    store.put(RedisKey::Role { guild: Some(1), role: 4 }, vec![1], None);
    store.put(member_key(1, 5), vec![1], None);
    let stats = store.stats();
    assert_eq!(stats.guilds, 1);
    assert_eq!(stats.channels, 2);
    assert_eq!(stats.roles, 1);
    assert_eq!(stats.members, 1);
}

#[test]
fn put_plan_spells_out_write_then_index_adds() {
    let key = member_key(1, 2);
    let plan = put_plan(key, vec![7], Some(30));
    assert_eq!(
        plan,
        vec![
            StoreCommand::Write { key, value: vec![7], ttl: Some(30) },
            StoreCommand::SAdd { index: IndexName::Members, member: key },
            StoreCommand::SAdd { index: IndexName::GuildScope(1), member: key },
        ]
    );
}

#[test]
fn delete_plan_spells_out_delete_then_index_removals() {
    let key = RedisKey::Channel { guild: Some(4), channel: 8 };
    let plan = delete_plan(key);
    assert_eq!(
        plan,
        vec![
            StoreCommand::Del { key },
            StoreCommand::SRem { index: IndexName::Channels, member: key },
            StoreCommand::SRem { index: IndexName::GuildScope(4), member: key },
        ]
    );
}

#[test]
fn put_all_plan_writes_before_index_updates() {
    let k1 = RedisKey::Guild { guild: 1 };
    let k2 = member_key(1, 2);
    let plan = put_all_plan(vec![(k1, vec![1]), (k2, vec![2])], None);
    assert_eq!(
        plan,
        vec![
            StoreCommand::Write { key: k1, value: vec![1], ttl: None },
            StoreCommand::Write { key: k2, value: vec![2], ttl: None },
            StoreCommand::SAdd { index: IndexName::Guilds, member: k1 },
            StoreCommand::SAdd { index: IndexName::Members, member: k2 },
            StoreCommand::SAdd { index: IndexName::GuildScope(1), member: k2 },
        ]
    );
}

#[test]
fn running_a_put_plan_equals_put() {
    let key = member_key(3, 4);
    let mut planned = MemStore::new();
    for cmd in put_plan(key, vec![9, 9], Some(5)) {
        planned.run(cmd);
    }
    let mut direct = MemStore::new();
    direct.put(key, vec![9, 9], Some(5));
    assert_eq!(planned.get(&key), direct.get(&key));
    assert_eq!(
        planned.smembers(&IndexName::Members),
        direct.smembers(&IndexName::Members)
    );
    assert_eq!(
        planned.smembers(&IndexName::GuildScope(3)),
        direct.smembers(&IndexName::GuildScope(3))
    );
}

#[test]
fn running_an_evict_plan_clears_the_scope() {
    let mut store = MemStore::new();
    let g1 = RedisKey::Guild { guild: 1 };
    let c1 = RedisKey::Channel { guild: Some(1), channel: 10 };
    let m1 = member_key(1, 30);
    let other = RedisKey::Guild { guild: 2 };
    for key in [g1, c1, m1, other] {
        store.put(key, vec![1], None);
    }
    let members = store.smembers(&IndexName::GuildScope(1));
    for cmd in evict_scope_plan(1, &members) {
        store.run(cmd);
    }
    assert!(!store.contains(&g1));
    assert!(!store.contains(&c1));
    assert!(!store.contains(&m1));
    assert!(store.smembers(&IndexName::GuildScope(1)).is_empty());
    assert!(store.contains(&other));
}
