//! The read accessor the permission resolver works against: a typed
//! snapshot of the records relevant to one query, fetched and decoded by the
//! surrounding I/O layer.
//!
//! Lookups find the first matching record, so a snapshot behaves like the
//! store it was read from: one record per address.

use vstd::prelude::*;

use crate::model::{CachedChannel, CachedGuild, CachedMember, CachedRole};

verus! {

/// The first element satisfying `p`, scanning left to right.
pub open spec fn find_by<T>(s: Seq<T>, p: spec_fn(T) -> bool) -> Option<T>
    decreases s.len(),
{
    if s.len() == 0 {
        None
    } else if p(s[0]) {
        Some(s[0])
    } else {
        find_by(s.skip(1), p)
    }
}

/// Scanning may begin after any prefix without a match.
proof fn lemma_find_by_skip<T>(s: Seq<T>, p: spec_fn(T) -> bool, i: int)
    requires
        0 <= i <= s.len(),
        forall|j: int| 0 <= j < i ==> !p(s[j]),
    ensures
        find_by(s, p) == find_by(s.skip(i), p),
    decreases i,
{
    if i == 0 {
        assert(s.skip(0) =~= s);
    } else {
        lemma_find_by_skip(s, p, i - 1);
        assert(s.skip(i - 1)[0] == s[i - 1]);
        assert(s.skip(i - 1).len() > 0);
        assert(!p(s.skip(i - 1)[0]));
        assert(s.skip(i - 1).skip(1) =~= s.skip(i));
        assert(find_by(s.skip(i - 1), p) == find_by(s.skip(i - 1).skip(1), p));
    }
}

proof fn lemma_find_by_at<T>(s: Seq<T>, p: spec_fn(T) -> bool, i: int)
    requires
        0 <= i < s.len(),
        forall|j: int| 0 <= j < i ==> !p(s[j]),
        p(s[i]),
    ensures
        find_by(s, p) == Some(s[i]),
{
    lemma_find_by_skip(s, p, i);
    assert(s.skip(i)[0] == s[i]);
}

proof fn lemma_find_by_none<T>(s: Seq<T>, p: spec_fn(T) -> bool)
    requires
        forall|j: int| 0 <= j < s.len() ==> !p(s[j]),
    ensures
        find_by(s, p) is None,
{
    lemma_find_by_skip(s, p, s.len() as int);
    assert(s.skip(s.len() as int) =~= Seq::empty());
}

/// A typed snapshot of cached records.
pub struct Snapshot {
    pub guilds: Vec<CachedGuild>,
    pub channels: Vec<CachedChannel>,
    pub roles: Vec<CachedRole>,
    pub members: Vec<CachedMember>,
}

impl Snapshot {
    pub open spec fn spec_guild(self, id: u64) -> Option<CachedGuild> {
        find_by(self.guilds@, |g: CachedGuild| g.id == id)
    }

    pub open spec fn spec_channel(self, id: u64) -> Option<CachedChannel> {
        find_by(self.channels@, |c: CachedChannel| c.spec_id() == id)
    }

    pub open spec fn spec_role(self, id: u64) -> Option<CachedRole> {
        find_by(self.roles@, |r: CachedRole| r.id == id)
    }

    pub open spec fn spec_member(self, guild: u64, user: u64) -> Option<CachedMember> {
        find_by(self.members@, |m: CachedMember| m.guild_id == guild && m.user_id == user)
    }

    /// An empty snapshot: no record is known.
    pub fn new() -> (r: Snapshot)
        ensures
            forall|id: u64| r.spec_guild(id) is None,
            forall|id: u64| r.spec_channel(id) is None,
            forall|id: u64| r.spec_role(id) is None,
            forall|g: u64, u: u64| r.spec_member(g, u) is None,
    {
        let r = Snapshot {
            guilds: Vec::new(),
            channels: Vec::new(),
            roles: Vec::new(),
            members: Vec::new(),
        };
        proof {
            assert forall|id: u64| r.spec_guild(id) is None by {
                lemma_find_by_none(r.guilds@, |g: CachedGuild| g.id == id);
            }
            assert forall|id: u64| r.spec_channel(id) is None by {
                lemma_find_by_none(r.channels@, |c: CachedChannel| c.spec_id() == id);
            }
            assert forall|id: u64| r.spec_role(id) is None by {
                lemma_find_by_none(r.roles@, |rr: CachedRole| rr.id == id);
            }
            assert forall|g: u64, u: u64| r.spec_member(g, u) is None by {
                lemma_find_by_none(
                    r.members@,
                    |m: CachedMember| m.guild_id == g && m.user_id == u,
                );
            }
        }
        r
    }

    /// Look up a guild record.
    pub fn guild(&self, id: u64) -> (r: Option<&CachedGuild>)
        ensures
            match r {
                Some(g) => self.spec_guild(id) == Some(*g),
                None => self.spec_guild(id) is None,
            },
    {
        let ghost p = |g: CachedGuild| g.id == id;
        let mut i: usize = 0;
        while i < self.guilds.len()
            invariant
                0 <= i <= self.guilds@.len(),
                forall|j: int| 0 <= j < i ==> !p(#[trigger] self.guilds@[j]),
                p == (|g: CachedGuild| g.id == id),
            decreases self.guilds@.len() - i,
        {
            if self.guilds[i].id == id {
                proof {
                    lemma_find_by_at(self.guilds@, p, i as int);
                }
                return Some(&self.guilds[i]);
            }
            i += 1;
        }
        proof {
            lemma_find_by_none(self.guilds@, p);
        }
        None
    }

    /// Look up a channel record by id.
    pub fn channel(&self, id: u64) -> (r: Option<&CachedChannel>)
        ensures
            match r {
                Some(c) => self.spec_channel(id) == Some(*c),
                None => self.spec_channel(id) is None,
            },
    {
        let ghost p = |c: CachedChannel| c.spec_id() == id;
        let mut i: usize = 0;
        while i < self.channels.len()
            invariant
                0 <= i <= self.channels@.len(),
                forall|j: int| 0 <= j < i ==> !p(#[trigger] self.channels@[j]),
                p == (|c: CachedChannel| c.spec_id() == id),
            decreases self.channels@.len() - i,
        {
            if self.channels[i].id() == id {
                proof {
                    lemma_find_by_at(self.channels@, p, i as int);
                }
                return Some(&self.channels[i]);
            }
            i += 1;
        }
        proof {
            lemma_find_by_none(self.channels@, p);
        }
        None
    }

    /// Look up a role record by id.
    pub fn role(&self, id: u64) -> (r: Option<&CachedRole>)
        ensures
            match r {
                Some(x) => self.spec_role(id) == Some(*x),
                None => self.spec_role(id) is None,
            },
    {
        let ghost p = |x: CachedRole| x.id == id;
        let mut i: usize = 0;
        while i < self.roles.len()
            invariant
                0 <= i <= self.roles@.len(),
                forall|j: int| 0 <= j < i ==> !p(#[trigger] self.roles@[j]),
                p == (|x: CachedRole| x.id == id),
            decreases self.roles@.len() - i,
        {
            if self.roles[i].id == id {
                proof {
                    lemma_find_by_at(self.roles@, p, i as int);
                }
                return Some(&self.roles[i]);
            }
            i += 1;
        }
        proof {
            lemma_find_by_none(self.roles@, p);
        }
        None
    }

    /// Look up a member record by its (guild, user) identity.
    pub fn member(&self, guild: u64, user: u64) -> (r: Option<&CachedMember>)
        ensures
            match r {
                Some(m) => self.spec_member(guild, user) == Some(*m),
                None => self.spec_member(guild, user) is None,
            },
    {
        let ghost p = |m: CachedMember| m.guild_id == guild && m.user_id == user;
        let mut i: usize = 0;
        while i < self.members.len()
            invariant
                0 <= i <= self.members@.len(),
                forall|j: int| 0 <= j < i ==> !p(#[trigger] self.members@[j]),
                p == (|m: CachedMember| m.guild_id == guild && m.user_id == user),
            decreases self.members@.len() - i,
        {
            if self.members[i].guild_id == guild && self.members[i].user_id == user {
                proof {
                    lemma_find_by_at(self.members@, p, i as int);
                }
                return Some(&self.members[i]);
            }
            i += 1;
        }
        proof {
            lemma_find_by_none(self.members@, p);
        }
        None
    }
}

} // verus!
