use redcache::config::CacheConfig;
use redcache::constants::{
    ADD_REACTIONS, ADMINISTRATOR, ALL_PERMISSIONS, ATTACH_FILES, EMBED_LINKS,
    PRIVATE_CHANNEL_PERMISSIONS, READ_MESSAGE_HISTORY, SEND_MESSAGES, USE_EXTERNAL_EMOJIS,
};
use redcache::error::CacheError;
use redcache::fetch::Snapshot;
use redcache::model::{
    CachedGuild, CachedMember, CachedRole, CachedTextChannel, CachedThread, CachedChannel,
    MemberLookup, PermissionOverwrite, PermissionOverwriteType,
};
use redcache::Cache;

const GUILD: u64 = 1;
const OWNER: u64 = 100;
const USER: u64 = 200;
const ROLE: u64 = 300;
const CHANNEL: u64 = 400;
const SUPERUSER: u64 = 999;

fn cache() -> Cache {
    Cache::with_config(CacheConfig { member_ttl: None, superuser: Some(SUPERUSER) })
}

fn guild_record() -> CachedGuild {
    CachedGuild {
        icon: None,
        id: GUILD,
        name: String::from("guild"),
        owner_id: OWNER,
    }
}

fn member_record(roles: Vec<u64>) -> CachedMember {
    CachedMember { guild_id: GUILD, nick: None, roles, user_id: USER }
}

fn role_record(permissions: u64) -> CachedRole {
    CachedRole { id: ROLE, name: String::from("role"), permissions, position: 0 }
}

fn text_channel(overwrites: Vec<PermissionOverwrite>) -> CachedChannel {
    CachedChannel::Text(CachedTextChannel {
        guild_id: Some(GUILD),
        id: CHANNEL,
        name: String::from("general"),
        permission_overwrites: overwrites,
    })
}

fn snapshot(channels: Vec<CachedChannel>) -> Snapshot {
    Snapshot {
        guilds: vec![guild_record()],
        channels,
        roles: vec![role_record(SEND_MESSAGES)],
        members: vec![member_record(vec![ROLE])],
    }
}

#[test]
fn owner_short_circuits_without_member_lookup() {
    let snap = snapshot(vec![]);
    let (mask, lookup) = cache().get_guild_permissions(&snap, OWNER, GUILD);
    assert_eq!(mask, ALL_PERMISSIONS);
    assert_eq!(lookup, MemberLookup::NotChecked);
}

#[test]
fn superuser_short_circuits_without_any_lookup() {
    // nothing at all is cached, yet the superuser gets everything
    let snap = Snapshot { guilds: vec![], channels: vec![], roles: vec![], members: vec![] };
    let (mask, lookup) = cache().get_guild_permissions(&snap, SUPERUSER, GUILD);
    assert_eq!(mask, ALL_PERMISSIONS);
    assert_eq!(lookup, MemberLookup::NotChecked);
}

#[test]
fn missing_guild_yields_no_information() {
    let snap = Snapshot { guilds: vec![], channels: vec![], roles: vec![], members: vec![] };
    let (mask, lookup) = cache().get_guild_permissions(&snap, USER, GUILD);
    assert_eq!(mask, 0);
    assert_eq!(lookup, MemberLookup::NotChecked);
}

#[test]
fn missing_member_is_reported() {
    let snap = Snapshot {
        guilds: vec![guild_record()],
        channels: vec![],
        roles: vec![],
        members: vec![],
    };
    let (mask, lookup) = cache().get_guild_permissions(&snap, USER, GUILD);
    assert_eq!(mask, 0);
    assert_eq!(lookup, MemberLookup::NotFound);
}

#[test]
fn roles_aggregate_by_union() {
    let mut snap = snapshot(vec![]);
    snap.roles.push(CachedRole {
        id: ROLE + 1,
        name: String::from("extra"),
        permissions: EMBED_LINKS,
        position: 1,
    });
    snap.members = vec![member_record(vec![ROLE, ROLE + 1, ROLE + 2])];
    // ROLE + 2 is not cached and contributes nothing
    let (mask, lookup) = cache().get_guild_permissions(&snap, USER, GUILD);
    assert_eq!(mask, SEND_MESSAGES | EMBED_LINKS);
    assert_eq!(lookup, MemberLookup::Found(member_record(vec![ROLE, ROLE + 1, ROLE + 2])));
}

#[test]
fn admin_role_promotes_to_all_bits() {
    let mut snap = snapshot(vec![]);
    snap.roles = vec![role_record(ADMINISTRATOR)];
    let (mask, lookup) = cache().get_guild_permissions(&snap, USER, GUILD);
    assert_eq!(mask, ALL_PERMISSIONS);
    assert_eq!(lookup, MemberLookup::Found(member_record(vec![ROLE])));
}

#[test]
fn private_channel_constant_is_independent_of_state() {
    let empty = Snapshot { guilds: vec![], channels: vec![], roles: vec![], members: vec![] };
    let mask = cache().get_channel_permissions(&empty, USER, CHANNEL, None);
    assert_eq!(mask, PRIVATE_CHANNEL_PERMISSIONS);
    assert_eq!(
        mask,
        SEND_MESSAGES | EMBED_LINKS | ATTACH_FILES | USE_EXTERNAL_EMOJIS | ADD_REACTIONS
            | READ_MESSAGE_HISTORY
    );
    // a populated snapshot gives the same constant
    let snap = snapshot(vec![text_channel(vec![])]);
    assert_eq!(
        cache().get_channel_permissions(&snap, USER, CHANNEL, None),
        PRIVATE_CHANNEL_PERMISSIONS
    );
}

#[test]
fn role_tier_overrides_everyone_tier() {
    // everyone denied SEND_MESSAGES, the member's role allows it back
    let overwrites = vec![
        PermissionOverwrite {
            kind: PermissionOverwriteType::Role(GUILD),
            allow: 0,
            deny: SEND_MESSAGES,
        },
        PermissionOverwrite {
            kind: PermissionOverwriteType::Role(ROLE),
            allow: SEND_MESSAGES,
            deny: 0,
        },
    ];
    let snap = snapshot(vec![text_channel(overwrites)]);
    let mask = cache().get_channel_permissions(&snap, USER, CHANNEL, Some(GUILD));
    assert_eq!(mask & SEND_MESSAGES, SEND_MESSAGES);
    assert_eq!(mask, SEND_MESSAGES);
}

#[test]
fn member_tier_overrides_role_tier() {
    let overwrites = vec![
        PermissionOverwrite {
            kind: PermissionOverwriteType::Role(GUILD),
            allow: 0,
            deny: SEND_MESSAGES,
        },
        PermissionOverwrite {
            kind: PermissionOverwriteType::Role(ROLE),
            allow: SEND_MESSAGES,
            deny: 0,
        },
        PermissionOverwrite {
            kind: PermissionOverwriteType::Member(USER),
            allow: 0,
            deny: SEND_MESSAGES,
        },
    ];
    let snap = snapshot(vec![text_channel(overwrites)]);
    let mask = cache().get_channel_permissions(&snap, USER, CHANNEL, Some(GUILD));
    assert_eq!(mask & SEND_MESSAGES, 0);
    assert_eq!(mask, 0);
}

#[test]
fn administrator_ignores_overwrites() {
    let overwrites = vec![
        PermissionOverwrite {
            kind: PermissionOverwriteType::Role(GUILD),
            allow: 0,
            deny: ALL_PERMISSIONS,
        },
        PermissionOverwrite {
            kind: PermissionOverwriteType::Member(USER),
            allow: 0,
            deny: ALL_PERMISSIONS,
        },
    ];
    let mut snap = snapshot(vec![text_channel(overwrites)]);
    snap.roles = vec![role_record(ADMINISTRATOR)];
    let mask = cache().get_channel_permissions(&snap, USER, CHANNEL, Some(GUILD));
    assert_eq!(mask, ALL_PERMISSIONS);
}

#[test]
fn thread_resolves_to_parent_overwrites() {
    let thread_id = CHANNEL + 1;
    let overwrites = vec![PermissionOverwrite {
        kind: PermissionOverwriteType::Role(GUILD),
        allow: 0,
        deny: SEND_MESSAGES,
    }];
    let thread = CachedChannel::PublicThread(CachedThread {
        guild_id: Some(GUILD),
        id: thread_id,
        name: String::from("thread"),
        parent_id: Some(CHANNEL),
    });
    let snap = snapshot(vec![text_channel(overwrites), thread]);
    let mask = cache().get_channel_permissions(&snap, USER, thread_id, Some(GUILD));
    // the parent's everyone tier removed SEND_MESSAGES
    assert_eq!(mask, 0);
}

#[test]
fn unresolvable_channel_keeps_guild_mask() {
    // a thread without a parent offers no overwrites
    let thread = CachedChannel::PrivateThread(CachedThread {
        guild_id: Some(GUILD),
        id: CHANNEL,
        name: String::from("thread"),
        parent_id: None,
    });
    let snap = snapshot(vec![thread]);
    let mask = cache().get_channel_permissions(&snap, USER, CHANNEL, Some(GUILD));
    assert_eq!(mask, SEND_MESSAGES);
}

#[test]
fn is_guild_owner_answers_and_errors() {
    let snap = snapshot(vec![]);
    let c = cache();
    assert_eq!(c.is_guild_owner(&snap, GUILD, OWNER), Ok(true));
    assert_eq!(c.is_guild_owner(&snap, GUILD, USER), Ok(false));
    assert_eq!(c.is_guild_owner(&snap, GUILD + 1, OWNER), Err(CacheError::MissingGuild));
}
