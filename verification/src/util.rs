//! The permission resolver: ownership checks and effective permission masks
//! for a (user, guild, optional channel) triple, computed over a snapshot of
//! cached records.

use vstd::prelude::*;

use crate::constants::{ADMINISTRATOR, ALL_PERMISSIONS, PRIVATE_CHANNEL_PERMISSIONS};
use crate::error::{CacheError, CacheResult};
use crate::fetch::Snapshot;
use crate::model::{
    same_member, CachedMember, CachedTextChannel, MemberLookup, PermissionOverwrite,
    PermissionOverwriteType,
};
use crate::Cache;

verus! {

/// Whether the cached role carries the administrator bit.
pub open spec fn role_is_admin(snap: Snapshot, id: u64) -> bool {
    match snap.spec_role(id) {
        Some(r) => r.permissions & ADMINISTRATOR == ADMINISTRATOR,
        None => false,
    }
}

/// The union of the permission bits of every held role that is cached;
/// uncached roles contribute nothing.
pub open spec fn role_union(snap: Snapshot, roles: Seq<u64>) -> u64
    decreases roles.len(),
{
    if roles.len() == 0 {
        0u64
    } else {
        match snap.spec_role(roles.last()) {
            Some(r) => role_union(snap, roles.drop_last()) | r.permissions,
            None => role_union(snap, roles.drop_last()),
        }
    }
}

/// Whether any held role is cached with the administrator bit.
pub open spec fn has_admin_role(snap: Snapshot, roles: Seq<u64>) -> bool {
    exists|i: int| 0 <= i < roles.len() && role_is_admin(snap, #[trigger] roles[i])
}

/// The guild-level mask: superuser and owner take everything; a missing
/// guild or member yields nothing; otherwise the member's roles are
/// aggregated, with the administrator bit promoting to everything.
pub open spec fn spec_guild_perm_mask(
    cfg: crate::config::CacheConfig,
    snap: Snapshot,
    user: u64,
    guild: u64,
) -> u64 {
    if cfg.superuser == Some(user) {
        ALL_PERMISSIONS
    } else {
        match snap.spec_guild(guild) {
            None => 0u64,
            Some(g) => if g.owner_id == user {
                ALL_PERMISSIONS
            } else {
                match snap.spec_member(guild, user) {
                    None => 0u64,
                    Some(m) => if has_admin_role(snap, m.roles@) {
                        ALL_PERMISSIONS
                    } else {
                        role_union(snap, m.roles@)
                    },
                }
            },
        }
    }
}

/// Allow/deny pair of the everyone tier: overwrites whose role target is
/// the guild itself.
pub open spec fn everyone_masks(ovs: Seq<PermissionOverwrite>, guild: u64) -> (u64, u64)
    decreases ovs.len(),
{
    if ovs.len() == 0 {
        (0u64, 0u64)
    } else {
        let p = everyone_masks(ovs.drop_last(), guild);
        let o = ovs.last();
        match o.kind {
            PermissionOverwriteType::Role(rid) => if rid == guild {
                (p.0 | o.allow, p.1 | o.deny)
            } else {
                p
            },
            PermissionOverwriteType::Member(_) => p,
        }
    }
}

/// Allow/deny pair of the role tier: overwrites targeting a role the member
/// holds (other than the everyone role).
pub open spec fn role_masks(ovs: Seq<PermissionOverwrite>, guild: u64, roles: Seq<u64>) -> (
    u64,
    u64,
)
    decreases ovs.len(),
{
    if ovs.len() == 0 {
        (0u64, 0u64)
    } else {
        let p = role_masks(ovs.drop_last(), guild, roles);
        let o = ovs.last();
        match o.kind {
            PermissionOverwriteType::Role(rid) => if rid != guild && roles.contains(rid) {
                (p.0 | o.allow, p.1 | o.deny)
            } else {
                p
            },
            PermissionOverwriteType::Member(_) => p,
        }
    }
}

/// Allow/deny pair of the member tier: overwrites targeting the user.
pub open spec fn member_masks(ovs: Seq<PermissionOverwrite>, user: u64) -> (u64, u64)
    decreases ovs.len(),
{
    if ovs.len() == 0 {
        (0u64, 0u64)
    } else {
        let p = member_masks(ovs.drop_last(), user);
        let o = ovs.last();
        match o.kind {
            PermissionOverwriteType::Member(uid) => if uid == user {
                (p.0 | o.allow, p.1 | o.deny)
            } else {
                p
            },
            PermissionOverwriteType::Role(_) => p,
        }
    }
}

/// Layer the three overwrite tiers onto a base mask, everyone first, then
/// roles, then the member; each tier clears its denied bits and sets its
/// allowed ones, so later tiers override earlier ones on the bits they
/// touch.
pub open spec fn apply_overwrites(
    base: u64,
    user: u64,
    guild: u64,
    ovs: Seq<PermissionOverwrite>,
    roles: Seq<u64>,
) -> u64 {
    let e = everyone_masks(ovs, guild);
    let r = role_masks(ovs, guild, roles);
    let m = member_masks(ovs, user);
    ((((((base & !e.1) | e.0) & !r.1) | r.0) & !m.1) | m.0)
}

/// The text channel whose overwrites govern `channel`: the channel itself
/// when it is a text channel, the parent for a thread, nothing otherwise.
pub open spec fn spec_resolved_text_channel(snap: Snapshot, channel: u64) -> Option<
    CachedTextChannel,
> {
    match snap.spec_channel(channel) {
        Some(c) => match c {
            crate::model::CachedChannel::Text(tc) => Some(tc),
            crate::model::CachedChannel::PrivateThread(t) => resolved_parent(snap, t.parent_id),
            crate::model::CachedChannel::PublicThread(t) => resolved_parent(snap, t.parent_id),
        },
        None => None,
    }
}

pub open spec fn resolved_parent(snap: Snapshot, parent: Option<u64>) -> Option<
    CachedTextChannel,
> {
    match parent {
        Some(p) => match snap.spec_channel(p) {
            Some(crate::model::CachedChannel::Text(tc)) => Some(tc),
            _ => None,
        },
        None => None,
    }
}

/// The channel-level mask. Without a guild the fixed private-channel mask
/// applies unconditionally; administrators keep everything; otherwise the
/// guild-level mask is layered with the channel's overwrites, when both an
/// overwrite-bearing channel form and the member record exist.
pub open spec fn spec_channel_perm_mask(
    cfg: crate::config::CacheConfig,
    snap: Snapshot,
    user: u64,
    channel: u64,
    guild: Option<u64>,
) -> u64 {
    match guild {
        None => PRIVATE_CHANNEL_PERMISSIONS,
        Some(g) => {
            let base = spec_guild_perm_mask(cfg, snap, user, g);
            if base & ADMINISTRATOR == ADMINISTRATOR {
                ALL_PERMISSIONS
            } else {
                match spec_resolved_text_channel(snap, channel) {
                    None => base,
                    Some(tc) => match snap.spec_member(g, user) {
                        None => base,
                        Some(m) => apply_overwrites(
                            base,
                            user,
                            g,
                            tc.permission_overwrites@,
                            m.roles@,
                        ),
                    },
                }
            }
        },
    }
}

impl Cache {
    /// Whether `user` owns the guild; an explicit error when the guild is
    /// not cached, since ownership can then not be decided.
    pub fn is_guild_owner(&self, snap: &Snapshot, guild: u64, user: u64) -> (r: CacheResult<bool>)
        ensures
            r == match snap.spec_guild(guild) {
                Some(g) => Ok::<bool, CacheError>(g.owner_id == user),
                None => Err::<bool, CacheError>(CacheError::MissingGuild),
            },
    {
        match snap.guild(guild) {
            Some(g) => Ok(g.owner_id == user),
            None => Err(CacheError::MissingGuild),
        }
    }

    /// The guild-level permission mask for a user, together with how the
    /// member record fared: the superuser and the guild owner short-circuit
    /// with every bit set and no member lookup at all, a missing guild
    /// yields no information, and otherwise the member's cached roles are
    /// aggregated, with the administrator bit promoting to every bit.
    pub fn get_guild_permissions(&self, snap: &Snapshot, user: u64, guild: u64) -> (r: (
        u64,
        MemberLookup,
    ))
        ensures
            r.0 == spec_guild_perm_mask(self.config, *snap, user, guild),
            (self.config.superuser == Some(user) || (snap.spec_guild(guild) matches Some(g)
                && g.owner_id == user) || snap.spec_guild(guild) is None) ==> r.1
                == MemberLookup::NotChecked,
            (self.config.superuser != Some(user) && (snap.spec_guild(guild) matches Some(g)
                && g.owner_id != user) && snap.spec_member(guild, user) is None) ==> r.1
                == MemberLookup::NotFound,
            (self.config.superuser != Some(user) && (snap.spec_guild(guild) matches Some(g)
                && g.owner_id != user) && snap.spec_member(guild, user) is Some) ==> (
            r.1 matches MemberLookup::Found(m) && same_member(
                m,
                snap.spec_member(guild, user).unwrap(),
            )),
    {
        if let Some(su) = self.config.superuser {
            if su == user {
                return (ALL_PERMISSIONS, MemberLookup::NotChecked);
            }
        }
        let g = match snap.guild(guild) {
            Some(g) => g,
            None => {
                return (0, MemberLookup::NotChecked);
            },
        };
        if g.owner_id == user {
            return (ALL_PERMISSIONS, MemberLookup::NotChecked);
        }
        let m = match snap.member(guild, user) {
            Some(m) => m,
            None => {
                return (0, MemberLookup::NotFound);
            },
        };
        let mut perms: u64 = 0;
        let mut i: usize = 0;
        while i < m.roles.len()
            invariant
                0 <= i <= m.roles@.len(),
                perms == role_union(*snap, m.roles@.take(i as int)),
                !has_admin_role(*snap, m.roles@.take(i as int)),
                self.config.superuser != Some(user),
                snap.spec_guild(guild) matches Some(gg) && gg.owner_id != user,
                snap.spec_member(guild, user) == Some(*m),
            decreases m.roles@.len() - i,
        {
            let role_id = m.roles[i];
            if let Some(role) = snap.role(role_id) {
                if role.permissions & ADMINISTRATOR == ADMINISTRATOR {
                    proof {
                        assert(role_is_admin(*snap, m.roles@[i as int]));
                        assert(has_admin_role(*snap, m.roles@));
                    }
                    return (ALL_PERMISSIONS, MemberLookup::Found(m.clone()));
                }
                perms = perms | role.permissions;
            }
            proof {
                let t0 = m.roles@.take(i as int);
                let t1 = m.roles@.take(i as int + 1);
                assert(t1.drop_last() =~= t0);
                assert(t1.last() == m.roles@[i as int]);
                if has_admin_role(*snap, t1) {
                    let j = choose|j: int| 0 <= j < t1.len() && role_is_admin(*snap, t1[j]);
                    if j < i as int {
                        assert(role_is_admin(*snap, t0[j]));
                    } else {
                        assert(t1[j] == m.roles@[i as int]);
                    }
                }
            }
            i += 1;
        }
        proof {
            assert(m.roles@.take(m.roles@.len() as int) =~= m.roles@);
        }
        (perms, MemberLookup::Found(m.clone()))
    }

    /// The channel-level permission mask. Overwrites apply only in guild
    /// context; private channels always yield the fixed constant mask, and
    /// an administrator's mask cannot be reduced by overwrites.
    pub fn get_channel_permissions(
        &self,
        snap: &Snapshot,
        user: u64,
        channel: u64,
        guild: Option<u64>,
    ) -> (r: u64)
        ensures
            r == spec_channel_perm_mask(self.config, *snap, user, channel, guild),
    {
        let g = match guild {
            Some(g) => g,
            None => {
                return PRIVATE_CHANNEL_PERMISSIONS;
            },
        };
        let (mut permissions, member) = self.get_guild_permissions(snap, user, g);
        if permissions & ADMINISTRATOR == ADMINISTRATOR {
            return ALL_PERMISSIONS;
        }
        let tc = match self.extract_channel(snap, channel) {
            Some(tc) => tc,
            None => {
                return permissions;
            },
        };
        let m = match member {
            MemberLookup::Found(m) => Some(m),
            MemberLookup::NotChecked => match snap.member(g, user) {
                Some(m) => Some(m.clone()),
                None => None,
            },
            MemberLookup::NotFound => None,
        };
        if let Some(m) = m {
            Self::text_channel_permissions(&mut permissions, user, g, tc, &m);
        }
        permissions
    }

    /// Resolve a channel to its overwrite-bearing text-channel form: a text
    /// channel is taken as is, a thread resolves to its parent, anything
    /// else has no overwrites to offer.
    fn extract_channel<'s>(&self, snap: &'s Snapshot, channel: u64) -> (r: Option<
        &'s CachedTextChannel,
    >)
        ensures
            match r {
                Some(tc) => spec_resolved_text_channel(*snap, channel) == Some(*tc),
                None => spec_resolved_text_channel(*snap, channel) is None,
            },
    {
        let parent: Option<u64> = match snap.channel(channel) {
            Some(crate::model::CachedChannel::Text(tc)) => {
                return Some(tc);
            },
            Some(crate::model::CachedChannel::PrivateThread(t)) => t.parent_id,
            Some(crate::model::CachedChannel::PublicThread(t)) => t.parent_id,
            None => {
                return None;
            },
        };
        match parent {
            Some(p) => match snap.channel(p) {
                Some(crate::model::CachedChannel::Text(tc)) => Some(tc),
                _ => None,
            },
            None => None,
        }
    }

    /// Layer a text channel's overwrites onto the running mask, tier by
    /// tier: everyone, then the member's roles, then the member itself.
    fn text_channel_permissions(
        permissions: &mut u64,
        user: u64,
        guild: u64,
        channel: &CachedTextChannel,
        member: &CachedMember,
    )
        ensures
            *final(permissions) == apply_overwrites(
                *old(permissions),
                user,
                guild,
                channel.permission_overwrites@,
                member.roles@,
            ),
    {
        let mut everyone_allowed: u64 = 0;
        let mut everyone_denied: u64 = 0;
        let mut role_allowed: u64 = 0;
        let mut role_denied: u64 = 0;
        let mut user_allowed: u64 = 0;
        let mut user_denied: u64 = 0;
        let ovs = &channel.permission_overwrites;
        let mut i: usize = 0;
        while i < ovs.len()
            invariant
                0 <= i <= ovs@.len(),
                (everyone_allowed, everyone_denied) == everyone_masks(
                    ovs@.take(i as int),
                    guild,
                ),
                (role_allowed, role_denied) == role_masks(
                    ovs@.take(i as int),
                    guild,
                    member.roles@,
                ),
                (user_allowed, user_denied) == member_masks(ovs@.take(i as int), user),
            decreases ovs@.len() - i,
        {
            let o = ovs[i];
            proof {
                let t0 = ovs@.take(i as int);
                let t1 = ovs@.take(i as int + 1);
                assert(t1.drop_last() =~= t0);
                assert(t1.last() == ovs@[i as int]);
            }
            match o.kind {
                PermissionOverwriteType::Member(uid) => {
                    if uid == user {
                        user_allowed = user_allowed | o.allow;
                        user_denied = user_denied | o.deny;
                    }
                },
                PermissionOverwriteType::Role(rid) => {
                    if rid == guild {
                        everyone_allowed = everyone_allowed | o.allow;
                        everyone_denied = everyone_denied | o.deny;
                    } else if contains_u64(&member.roles, rid) {
                        role_allowed = role_allowed | o.allow;
                        role_denied = role_denied | o.deny;
                    }
                },
            }
            i += 1;
        }
        proof {
            assert(ovs@.take(ovs@.len() as int) =~= ovs@);
        }
        *permissions = *permissions & !everyone_denied;
        *permissions = *permissions | everyone_allowed;
        *permissions = *permissions & !role_denied;
        *permissions = *permissions | role_allowed;
        *permissions = *permissions & !user_denied;
        *permissions = *permissions | user_allowed;
    }
}

fn contains_u64(v: &Vec<u64>, x: u64) -> (r: bool)
    ensures
        r == v@.contains(x),
{
    let mut i: usize = 0;
    while i < v.len()
        invariant
            0 <= i <= v@.len(),
            forall|j: int| 0 <= j < i ==> v@[j] != x,
        decreases v@.len() - i,
    {
        if v[i] == x {
            return true;
        }
        i += 1;
    }
    proof {
        if v@.contains(x) {
            let j = choose|j: int| 0 <= j < v@.len() && v@[j] == x;
            assert(v@[j] != x);
        }
    }
    false
}

/// A member holding any cached role with the administrator bit gets every
/// bit at channel level, whatever the overwrite configuration says.
pub proof fn lemma_admin_short_circuit(
    cfg: crate::config::CacheConfig,
    snap: Snapshot,
    user: u64,
    channel: u64,
    guild: u64,
)
    requires
        snap.spec_guild(guild) is Some,
        snap.spec_member(guild, user) is Some,
        has_admin_role(snap, snap.spec_member(guild, user).unwrap().roles@),
    ensures
        spec_channel_perm_mask(cfg, snap, user, channel, Some(guild)) == ALL_PERMISSIONS,
{
    assert(1u64 << 3 == 0x8u64) by (bit_vector);
    assert(u64::MAX & 0x8u64 == 0x8u64) by (bit_vector);
    assert(ADMINISTRATOR == 0x8u64);
    assert(ALL_PERMISSIONS & ADMINISTRATOR == ADMINISTRATOR);
    let base = spec_guild_perm_mask(cfg, snap, user, guild);
    assert(base == ALL_PERMISSIONS);
}

/// Outside guild context the result is the fixed constant, whatever the
/// cache holds.
pub proof fn lemma_private_channel_constant(
    cfg: crate::config::CacheConfig,
    snap: Snapshot,
    user: u64,
    channel: u64,
)
    ensures
        spec_channel_perm_mask(cfg, snap, user, channel, None) == PRIVATE_CHANNEL_PERMISSIONS,
{
}

} // verus!
