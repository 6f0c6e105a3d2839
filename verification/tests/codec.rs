use redcache::error::CacheError;
use redcache::index::{indices_for, IndexName};
use redcache::model::redis_key::{decode, RedisKey};

#[test]
fn round_trip_fixed_literals() {
    assert_eq!(RedisKey::BotUser.encode(), "bot_user");
    assert_eq!(RedisKey::Sessions.encode(), "gateway_sessions");
    assert_eq!(RedisKey::Shards.encode(), "gateway_shards");
    assert_eq!(decode("bot_user"), Ok(RedisKey::BotUser));
    assert_eq!(decode("gateway_sessions"), Ok(RedisKey::Sessions));
    assert_eq!(decode("gateway_shards"), Ok(RedisKey::Shards));
}

#[test]
fn round_trip_single_id_variants() {
    let c = RedisKey::Channel { guild: None, channel: 12345 };
    assert_eq!(c.encode(), "channel:12345");
    assert_eq!(decode("channel:12345"), Ok(c));

    let g = RedisKey::Guild { guild: 7 };
    assert_eq!(g.encode(), "guild:7");
    assert_eq!(decode("guild:7"), Ok(g));

    let r = RedisKey::Role { guild: None, role: 0 };
    assert_eq!(r.encode(), "role:0");
    assert_eq!(decode("role:0"), Ok(r));
}

#[test]
fn round_trip_member() {
    let m = RedisKey::Member { guild: 41, user: 99 };
    assert_eq!(m.encode(), "member:41:99");
    assert_eq!(decode("member:41:99"), Ok(m));
}

#[test]
fn round_trip_maximum_identifier() {
    let max = u64::MAX;
    let c = RedisKey::Channel { guild: None, channel: max };
    assert_eq!(c.encode(), format!("channel:{}", max));
    assert_eq!(decode(&c.encode()), Ok(c));

    let m = RedisKey::Member { guild: max, user: max };
    assert_eq!(decode(&m.encode()), Ok(m));
}

#[test]
fn round_trip_drops_redundant_scope() {
    // The guild scope of a channel or role address is not encoded, so a
    // round trip reconstructs the address without it.
    let c = RedisKey::Channel { guild: Some(1), channel: 2 };
    assert_eq!(c.encode(), "channel:2");
    assert_eq!(decode("channel:2"), Ok(RedisKey::Channel { guild: None, channel: 2 }));

    let r = RedisKey::Role { guild: Some(1), role: 3 };
    assert_eq!(r.encode(), "role:3");
    assert_eq!(decode("role:3"), Ok(RedisKey::Role { guild: None, role: 3 }));
}

#[test]
fn decode_rejects_malformed_input() {
    assert_eq!(decode("channel"), Err(CacheError::InvalidKey));
    assert_eq!(decode("channel:notanumber"), Err(CacheError::InvalidKey));
    assert_eq!(decode("channel:1:2"), Err(CacheError::InvalidKey));
    assert_eq!(decode("bogus:1"), Err(CacheError::InvalidKey));
}

#[test]
fn decode_rejects_truncated_and_overflowing_forms() {
    assert_eq!(decode(""), Err(CacheError::InvalidKey));
    assert_eq!(decode(":"), Err(CacheError::InvalidKey));
    assert_eq!(decode("guild:"), Err(CacheError::InvalidKey));
    assert_eq!(decode("member:1"), Err(CacheError::InvalidKey));
    assert_eq!(decode("member:1:"), Err(CacheError::InvalidKey));
    assert_eq!(decode("member:1:2:3"), Err(CacheError::InvalidKey));
    assert_eq!(decode("member::2"), Err(CacheError::InvalidKey));
    // one more than u64::MAX
    assert_eq!(decode("guild:18446744073709551616"), Err(CacheError::InvalidKey));
    // exactly u64::MAX still parses
    assert_eq!(
        decode("guild:18446744073709551615"),
        Ok(RedisKey::Guild { guild: u64::MAX })
    );
    // a sign is not part of the grammar
    assert_eq!(decode("guild:+7"), Err(CacheError::InvalidKey));
}

#[test]
fn decode_tolerates_leading_zeros() {
    assert_eq!(decode("guild:007"), Ok(RedisKey::Guild { guild: 7 }));
}

#[test]
fn index_names() {
    assert_eq!(IndexName::Channels.name(), "channel_keys");
    assert_eq!(IndexName::Guilds.name(), "guild_keys");
    assert_eq!(IndexName::Members.name(), "member_keys");
    assert_eq!(IndexName::Roles.name(), "role_keys");
    assert_eq!(IndexName::GuildScope(42).name(), "guild_keys:42");
}

#[test]
fn indices_for_each_kind() {
    assert_eq!(
        indices_for(&RedisKey::Channel { guild: Some(5), channel: 1 }),
        vec![IndexName::Channels, IndexName::GuildScope(5)]
    );
    assert_eq!(
        indices_for(&RedisKey::Channel { guild: None, channel: 1 }),
        vec![IndexName::Channels]
    );
    assert_eq!(indices_for(&RedisKey::Guild { guild: 5 }), vec![IndexName::Guilds]);
    assert_eq!(
        indices_for(&RedisKey::Member { guild: 5, user: 9 }),
        vec![IndexName::Members, IndexName::GuildScope(5)]
    );
    assert_eq!(
        indices_for(&RedisKey::Role { guild: Some(5), role: 2 }),
        vec![IndexName::Roles, IndexName::GuildScope(5)]
    );
    assert_eq!(
        indices_for(&RedisKey::Role { guild: None, role: 2 }),
        vec![IndexName::Roles]
    );
    assert_eq!(indices_for(&RedisKey::BotUser), vec![]);
    assert_eq!(indices_for(&RedisKey::Sessions), vec![]);
    assert_eq!(indices_for(&RedisKey::Shards), vec![]);
}

#[test]
fn error_messages() {
    assert!(!CacheError::InvalidKey.message().is_empty());
    assert!(!CacheError::WrongValueKind.message().is_empty());
    assert!(!CacheError::MissingGuild.message().is_empty());
}
