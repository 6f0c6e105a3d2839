//! The write/delete path.
//!
//! Mutations are planned as sequences of primitive store commands: the
//! primary write or delete first, then the secondary-index updates. The
//! surrounding I/O layer executes a plan against the backing store verbatim;
//! [`MemStore`] executes the same commands against an in-memory store and is
//! both the reference model of the backing store and the store the tests
//! run against.

use vstd::prelude::*;

use crate::index::{indices_for, spec_indices_for, IndexName};
use crate::model::redis_key::{key_eq, RedisKey};
use crate::model::CacheStats;

verus! {

/// One primitive command against the backing store.
#[derive(Debug, PartialEq, Eq)]
pub enum StoreCommand {
    /// Write `value` under `key`; with `ttl` the key expires after that many
    /// seconds.
    Write { key: RedisKey, value: Vec<u8>, ttl: Option<u64> },
    /// Add `member`'s encoded address to an index set.
    SAdd { index: IndexName, member: RedisKey },
    /// Remove the primary key.
    Del { key: RedisKey },
    /// Remove `member`'s encoded address from an index set.
    SRem { index: IndexName, member: RedisKey },
    /// Remove an index set wholesale.
    DelIndex { index: IndexName },
}

// ---------------------------------------------------------------------------
// Plans
// ---------------------------------------------------------------------------

pub open spec fn spec_sadds(key: RedisKey, idxs: Seq<IndexName>) -> Seq<StoreCommand>
    decreases idxs.len(),
{
    if idxs.len() == 0 {
        Seq::empty()
    } else {
        spec_sadds(key, idxs.drop_last()).push(
            StoreCommand::SAdd { index: idxs.last(), member: key },
        )
    }
}

pub open spec fn spec_srems(key: RedisKey, idxs: Seq<IndexName>) -> Seq<StoreCommand>
    decreases idxs.len(),
{
    if idxs.len() == 0 {
        Seq::empty()
    } else {
        spec_srems(key, idxs.drop_last()).push(
            StoreCommand::SRem { index: idxs.last(), member: key },
        )
    }
}

/// A `put`: one primary write, then membership in every index of the key.
pub open spec fn spec_put_plan(key: RedisKey, value: Vec<u8>, ttl: Option<u64>) -> Seq<
    StoreCommand,
> {
    seq![StoreCommand::Write { key, value, ttl }] + spec_sadds(key, spec_indices_for(key))
}

/// A `delete`: one primary delete, then removal from every index of the key.
pub open spec fn spec_delete_plan(key: RedisKey) -> Seq<StoreCommand> {
    seq![StoreCommand::Del { key }] + spec_srems(key, spec_indices_for(key))
}

pub open spec fn spec_set_cmds(pairs: Seq<(RedisKey, Vec<u8>)>, ttl: Option<u64>) -> Seq<
    StoreCommand,
>
    decreases pairs.len(),
{
    if pairs.len() == 0 {
        Seq::empty()
    } else {
        spec_set_cmds(pairs.drop_last(), ttl).push(
            StoreCommand::Write { key: pairs.last().0, value: pairs.last().1, ttl },
        )
    }
}

pub open spec fn spec_sadds_all(keys: Seq<RedisKey>) -> Seq<StoreCommand>
    decreases keys.len(),
{
    if keys.len() == 0 {
        Seq::empty()
    } else {
        spec_sadds_all(keys.drop_last()) + spec_sadds(
            keys.last(),
            spec_indices_for(keys.last()),
        )
    }
}

pub open spec fn spec_del_cmds(keys: Seq<RedisKey>) -> Seq<StoreCommand>
    decreases keys.len(),
{
    if keys.len() == 0 {
        Seq::empty()
    } else {
        spec_del_cmds(keys.drop_last()).push(StoreCommand::Del { key: keys.last() })
    }
}

pub open spec fn spec_srems_all(keys: Seq<RedisKey>) -> Seq<StoreCommand>
    decreases keys.len(),
{
    if keys.len() == 0 {
        Seq::empty()
    } else {
        spec_srems_all(keys.drop_last()) + spec_srems(
            keys.last(),
            spec_indices_for(keys.last()),
        )
    }
}

/// A batched `put`: all primary writes first, then every index update.
pub open spec fn spec_put_all_plan(pairs: Seq<(RedisKey, Vec<u8>)>, ttl: Option<u64>) -> Seq<
    StoreCommand,
> {
    spec_set_cmds(pairs, ttl) + spec_sadds_all(pairs.map(|i, p: (RedisKey, Vec<u8>)| p.0))
}

/// A batched `delete`: all primary deletes first, then every index removal.
pub open spec fn spec_delete_all_plan(keys: Seq<RedisKey>) -> Seq<StoreCommand> {
    spec_del_cmds(keys) + spec_srems_all(keys)
}

/// A scope eviction, given the membership read from the guild's index:
/// delete every member, drop the index set itself, then delete the guild
/// record.
pub open spec fn spec_evict_scope_plan(guild: u64, members: Seq<RedisKey>) -> Seq<StoreCommand> {
    spec_delete_all_plan(members) + seq![
        StoreCommand::DelIndex { index: IndexName::GuildScope(guild) },
    ] + spec_delete_plan(RedisKey::Guild { guild })
}

/// Plan the commands of a single `put`.
pub fn put_plan(key: RedisKey, value: Vec<u8>, ttl: Option<u64>) -> (r: Vec<StoreCommand>)
    ensures
        r@ == spec_put_plan(key, value, ttl),
{
    let mut r: Vec<StoreCommand> = Vec::new();
    r.push(StoreCommand::Write { key, value, ttl });
    let idxs = indices_for(&key);
    push_sadds(&mut r, key, &idxs);
    proof {
        assert(r@ =~= spec_put_plan(key, value, ttl));
    }
    r
}

/// Plan the commands of a single `delete`.
pub fn delete_plan(key: RedisKey) -> (r: Vec<StoreCommand>)
    ensures
        r@ == spec_delete_plan(key),
{
    let mut r: Vec<StoreCommand> = Vec::new();
    r.push(StoreCommand::Del { key });
    let idxs = indices_for(&key);
    push_srems(&mut r, key, &idxs);
    proof {
        assert(r@ =~= spec_delete_plan(key));
    }
    r
}

/// Plan a batched `put`. The caller serializes every value before the plan
/// is made, so a value that cannot be encoded fails the whole batch before
/// any store traffic.
pub fn put_all_plan(pairs: Vec<(RedisKey, Vec<u8>)>, ttl: Option<u64>) -> (r: Vec<StoreCommand>)
    ensures
        r@ == spec_put_all_plan(pairs@, ttl),
{
    let ghost orig = pairs@;
    let mut pairs = pairs;
    let mut r: Vec<StoreCommand> = Vec::new();
    let mut keys: Vec<RedisKey> = Vec::new();
    let ghost keyseq = orig.map(|i, p: (RedisKey, Vec<u8>)| p.0);
    proof {
        assert(keyseq.len() == orig.len());
    }
    while pairs.len() > 0
        invariant
            keyseq.len() == orig.len(),
            keyseq == orig.map(|i, p: (RedisKey, Vec<u8>)| p.0),
            pairs@ =~= orig.skip(orig.len() - pairs@.len()),
            r@ == spec_set_cmds(orig.take(orig.len() - pairs@.len()), ttl),
            keys@ == keyseq.take(orig.len() - pairs@.len()),
            pairs@.len() <= orig.len(),
        decreases pairs@.len(),
    {
        let ghost done = orig.len() - pairs@.len();
        proof {
            assert(0 <= done < orig.len());
            assert(orig.skip(done)[0] == orig[done]);
        }
        let (k, v) = pairs.remove(0);
        r.push(StoreCommand::Write { key: k, value: v, ttl });
        keys.push(k);
        proof {
            assert(k == orig[done].0 && v == orig[done].1);
            assert(keyseq[done] == orig[done].0);
            assert(pairs@ =~= orig.skip(done + 1));
            assert(orig.take(done + 1).drop_last() =~= orig.take(done));
            assert(orig.take(done + 1).last() == orig[done]);
            assert(r@ =~= spec_set_cmds(orig.take(done + 1), ttl));
            assert(keyseq.take(done + 1).drop_last() =~= keyseq.take(done));
            assert(keys@ =~= keyseq.take(done + 1));
        }
    }
    proof {
        assert(orig.take(orig.len() as int) =~= orig);
        assert(keyseq.take(orig.len() as int) =~= keyseq);
    }
    let mut i: usize = 0;
    while i < keys.len()
        invariant
            0 <= i <= keys@.len(),
            keys@ == keyseq,
            keyseq.len() == orig.len(),
            r@ == spec_set_cmds(orig, ttl) + spec_sadds_all(keyseq.take(i as int)),
        decreases keys@.len() - i,
    {
        let idxs = indices_for(&keys[i]);
        push_sadds(&mut r, keys[i], &idxs);
        proof {
            assert(keyseq.take(i as int + 1).drop_last() =~= keyseq.take(i as int));
            assert(r@ =~= spec_set_cmds(orig, ttl) + spec_sadds_all(keyseq.take(i as int + 1)));
        }
        i += 1;
    }
    proof {
        assert(r@ =~= spec_put_all_plan(orig, ttl));
    }
    r
}

/// Plan a batched `delete`.
pub fn delete_all_plan(keys: &Vec<RedisKey>) -> (r: Vec<StoreCommand>)
    ensures
        r@ == spec_delete_all_plan(keys@),
{
    let mut r: Vec<StoreCommand> = Vec::new();
    let mut i: usize = 0;
    while i < keys.len()
        invariant
            0 <= i <= keys@.len(),
            r@ == spec_del_cmds(keys@.take(i as int)),
        decreases keys@.len() - i,
    {
        r.push(StoreCommand::Del { key: keys[i] });
        proof {
            assert(keys@.take(i as int + 1).drop_last() =~= keys@.take(i as int));
        }
        i += 1;
    }
    proof {
        assert(keys@.take(keys@.len() as int) =~= keys@);
    }
    let mut i: usize = 0;
    while i < keys.len()
        invariant
            0 <= i <= keys@.len(),
            r@ == spec_del_cmds(keys@) + spec_srems_all(keys@.take(i as int)),
        decreases keys@.len() - i,
    {
        let idxs = indices_for(&keys[i]);
        push_srems(&mut r, keys[i], &idxs);
        proof {
            assert(keys@.take(i as int + 1).drop_last() =~= keys@.take(i as int));
            assert(r@ =~= spec_del_cmds(keys@) + spec_srems_all(keys@.take(i as int + 1)));
        }
        i += 1;
    }
    proof {
        assert(keys@.take(keys@.len() as int) =~= keys@);
        assert(r@ =~= spec_delete_all_plan(keys@));
    }
    r
}

/// Plan a scope eviction from the membership read out of the guild's index.
pub fn evict_scope_plan(guild: u64, members: &Vec<RedisKey>) -> (r: Vec<StoreCommand>)
    ensures
        r@ == spec_evict_scope_plan(guild, members@),
{
    let mut r = delete_all_plan(members);
    r.push(StoreCommand::DelIndex { index: IndexName::GuildScope(guild) });
    let mut tail = delete_plan(RedisKey::Guild { guild });
    r.append(&mut tail);
    proof {
        assert(r@ =~= spec_evict_scope_plan(guild, members@));
    }
    r
}

// ---------------------------------------------------------------------------
// The in-memory store
// ---------------------------------------------------------------------------

/// An in-memory key-value store with the same observable operations as the
/// backing store: byte values under primary keys, member sets under index
/// names, per-key expiry recorded with the value. It is the reference model
/// the mutation pipeline is verified against and the store the tests run.
pub struct MemStore {
    entries: Vec<(RedisKey, (Vec<u8>, Option<u64>))>,
    sets: Vec<(IndexName, Vec<RedisKey>)>,
}

/// No two pairs share a key.
pub open spec fn unique_keys<K, V>(s: Seq<(K, V)>) -> bool {
    forall|i: int, j: int|
        0 <= i < j < s.len() ==> (#[trigger] s[i]).0 != (#[trigger] s[j]).0
}

pub open spec fn has_key<K, V>(s: Seq<(K, V)>, k: K) -> bool {
    exists|i: int| 0 <= i < s.len() && (#[trigger] s[i]).0 == k
}

pub open spec fn assoc_at<K, V>(s: Seq<(K, V)>, k: K) -> int {
    choose|i: int| 0 <= i < s.len() && (#[trigger] s[i]).0 == k
}

pub open spec fn assoc_get<K, V>(s: Seq<(K, V)>, k: K) -> Option<V> {
    if has_key(s, k) {
        Some(s[assoc_at(s, k)].1)
    } else {
        None
    }
}

/// No element occurs twice.
pub open spec fn distinct<T>(s: Seq<T>) -> bool {
    forall|i: int, j: int| 0 <= i < j < s.len() ==> #[trigger] s[i] != #[trigger] s[j]
}

proof fn lemma_assoc_remove<K, V>(s: Seq<(K, V)>, i: int)
    requires
        unique_keys(s),
        0 <= i < s.len(),
    ensures
        unique_keys(s.remove(i)),
        !has_key(s.remove(i), s[i].0),
        forall|k: K|
            k != s[i].0 ==> #[trigger] has_key(s.remove(i), k) == has_key(s, k),
        forall|k: K|
            k != s[i].0 ==> #[trigger] assoc_get(s.remove(i), k) == assoc_get(s, k),
{
    let t = s.remove(i);
    assert(t.len() == s.len() - 1);
    assert(forall|j: int| 0 <= j < i ==> t[j] == s[j]);
    assert(forall|j: int| i <= j < t.len() ==> t[j] == s[j + 1]);
    assert forall|a: int, b: int| 0 <= a < b < t.len() implies (#[trigger] t[a]).0 != (
    #[trigger] t[b]).0 by {
        let a2: int = if a < i { a } else { a + 1 };
        let b2: int = if b < i { b } else { b + 1 };
        assert(t[a] == s[a2] && t[b] == s[b2]);
    }
    if has_key(t, s[i].0) {
        let j = assoc_at(t, s[i].0);
        assert(0 <= j < t.len() && t[j].0 == s[i].0);
        let j2: int = if j < i { j } else { j + 1 };
        assert(t[j] == s[j2]);
        if j2 < i {
            assert(s[j2].0 != s[i].0);
        } else {
            assert(s[i].0 != s[j2].0);
        }
    }
    assert forall|k: K| k != s[i].0 implies #[trigger] has_key(t, k) == has_key(s, k) && assoc_get(
        t,
        k,
    ) == assoc_get(s, k) by {
        if has_key(s, k) {
            let j = assoc_at(s, k);
            assert(0 <= j < s.len() && s[j].0 == k);
            assert(j != i);
            let j2: int = if j < i { j } else { j - 1 };
            assert(t[j2] == s[j]);
            assert((t[j2]).0 == k);
            assert(has_key(t, k));
            let j3 = assoc_at(t, k);
            assert(0 <= j3 < t.len() && t[j3].0 == k);
            let j4: int = if j3 < i { j3 } else { j3 + 1 };
            assert(t[j3] == s[j4]);
            assert(s[j4].0 == k);
            if j4 < j {
                assert(s[j4].0 != s[j].0);
            } else if j < j4 {
                assert(s[j].0 != s[j4].0);
            }
            assert(j4 == j);
            assert(assoc_get(t, k) == Some(s[j].1));
            assert(assoc_get(s, k) == Some(s[j].1));
        } else {
            if has_key(t, k) {
                let j3 = assoc_at(t, k);
                assert(0 <= j3 < t.len() && t[j3].0 == k);
                let j4: int = if j3 < i { j3 } else { j3 + 1 };
                assert(t[j3] == s[j4]);
                assert((s[j4]).0 == k);
                assert(has_key(s, k));
            }
        }
    }
}

proof fn lemma_assoc_push<K, V>(s: Seq<(K, V)>, k: K, v: V)
    requires
        unique_keys(s),
        !has_key(s, k),
    ensures
        unique_keys(s.push((k, v))),
        has_key(s.push((k, v)), k),
        assoc_get(s.push((k, v)), k) == Some(v),
        forall|k2: K|
            k2 != k ==> #[trigger] has_key(s.push((k, v)), k2) == has_key(s, k2),
        forall|k2: K|
            k2 != k ==> #[trigger] assoc_get(s.push((k, v)), k2) == assoc_get(s, k2),
{
    let t = s.push((k, v));
    let n = s.len() as int;
    assert(t.len() == n + 1);
    assert(forall|j: int| 0 <= j < n ==> t[j] == s[j]);
    assert(t[n] == (k, v));
    assert(t[n].0 == k);
    assert forall|a: int, b: int| 0 <= a < b < t.len() implies (#[trigger] t[a]).0 != (
    #[trigger] t[b]).0 by {
        if b < n {
            assert(t[a] == s[a] && t[b] == s[b]);
        } else {
            assert(t[a] == s[a]);
            if s[a].0 == k {
                assert(has_key(s, k));
            }
        }
    }
    assert(has_key(t, k));
    let j = assoc_at(t, k);
    assert(0 <= j < t.len() && t[j].0 == k);
    if j < n {
        assert(s[j].0 == k);
        assert(has_key(s, k));
    }
    assert(assoc_get(t, k) == Some(v));
    assert forall|k2: K| k2 != k implies #[trigger] has_key(t, k2) == has_key(s, k2) && assoc_get(
        t,
        k2,
    ) == assoc_get(s, k2) by {
        if has_key(s, k2) {
            let j1 = assoc_at(s, k2);
            assert(0 <= j1 < n && s[j1].0 == k2);
            assert(t[j1].0 == k2);
            assert(has_key(t, k2));
            let j2 = assoc_at(t, k2);
            assert(0 <= j2 < t.len() && t[j2].0 == k2);
            assert(j2 < n);
            assert(s[j2].0 == k2);
            if j2 < j1 {
                assert(s[j2].0 != s[j1].0);
            } else if j1 < j2 {
                assert(s[j1].0 != s[j2].0);
            }
            assert(assoc_get(t, k2) == Some(s[j1].1));
            assert(assoc_get(s, k2) == Some(s[j1].1));
        } else {
            if has_key(t, k2) {
                let j2 = assoc_at(t, k2);
                assert(0 <= j2 < t.len() && t[j2].0 == k2);
                assert(j2 < n);
                assert(has_key(s, k2));
            }
        }
    }
}

proof fn lemma_push_contains<T>(s: Seq<T>, x: T)
    ensures
        forall|y: T| #[trigger] s.push(x).contains(y) == (s.contains(y) || y == x),
{
    let t = s.push(x);
    assert(t[s.len() as int] == x);
    assert forall|y: T| #[trigger] t.contains(y) == (s.contains(y) || y == x) by {
        if s.contains(y) {
            let j = choose|j: int| 0 <= j < s.len() && s[j] == y;
            assert(t[j] == y);
        }
        if t.contains(y) && y != x {
            let j = choose|j: int| 0 <= j < t.len() && t[j] == y;
            assert(j < s.len());
            assert(s[j] == y);
        }
    }
}

proof fn lemma_distinct_remove<T>(s: Seq<T>, i: int)
    requires
        distinct(s),
        0 <= i < s.len(),
    ensures
        distinct(s.remove(i)),
        forall|y: T| #[trigger] s.remove(i).contains(y) == (s.contains(y) && y != s[i]),
{
    let t = s.remove(i);
    assert(forall|j: int| 0 <= j < i ==> t[j] == s[j]);
    assert(forall|j: int| i <= j < t.len() ==> t[j] == s[j + 1]);
    assert forall|a: int, b: int| 0 <= a < b < t.len() implies #[trigger] t[a] != #[trigger] t[b] by {
        let a2: int = if a < i { a } else { a + 1 };
        let b2: int = if b < i { b } else { b + 1 };
        assert(t[a] == s[a2] && t[b] == s[b2]);
        assert(s[a2] != s[b2]);
    }
    assert forall|y: T| #[trigger] t.contains(y) == (s.contains(y) && y != s[i]) by {
        if t.contains(y) {
            let j = choose|j: int| 0 <= j < t.len() && t[j] == y;
            let j2: int = if j < i { j } else { j + 1 };
            assert(t[j] == s[j2]);
            assert(s[j2] == y);
            assert(s.contains(y));
            assert(j2 != i);
            if j2 < i {
                assert(s[j2] != s[i]);
            } else {
                assert(s[i] != s[j2]);
            }
        }
        if s.contains(y) && y != s[i] {
            let j = choose|j: int| 0 <= j < s.len() && s[j] == y;
            assert(j != i);
            let j2: int = if j < i { j } else { j - 1 };
            assert(t[j2] == s[j]);
            assert(t.contains(y));
        }
    }
}

impl MemStore {
    /// Keys unique, set names unique, set members distinct, and no empty
    /// set is kept: an index set with no members is absent.
    pub closed spec fn wf(self) -> bool {
        &&& unique_keys(self.entries@)
        &&& unique_keys(self.sets@)
        &&& forall|i: int|
            0 <= i < self.sets@.len() ==> distinct((#[trigger] self.sets@[i]).1@)
                && self.sets@[i].1@.len() > 0
    }

    /// Whether a primary key is present.
    pub closed spec fn spec_contains_key(self, k: RedisKey) -> bool {
        has_key(self.entries@, k)
    }

    /// The bytes stored under a primary key.
    pub closed spec fn spec_value(self, k: RedisKey) -> Option<Seq<u8>> {
        match assoc_get(self.entries@, k) {
            Some(e) => Some(e.0@),
            None => None,
        }
    }

    /// The expiry recorded for a primary key; `None` when the key is absent
    /// or was written without one.
    pub closed spec fn spec_ttl(self, k: RedisKey) -> Option<u64> {
        match assoc_get(self.entries@, k) {
            Some(e) => e.1,
            None => None,
        }
    }

    /// Whether `m` is a member of the index set `idx`.
    pub closed spec fn spec_index_has(self, idx: IndexName, m: RedisKey) -> bool {
        match assoc_get(self.sets@, idx) {
            Some(mem) => mem@.contains(m),
            None => false,
        }
    }

    /// Whether the index set exists at all; empty sets are never kept, so
    /// this is the same as having a member.
    pub open spec fn spec_has_index(self, idx: IndexName) -> bool {
        exists|m: RedisKey| self.spec_index_has(idx, m)
    }

    /// The cardinality of an index set.
    pub closed spec fn spec_scard(self, idx: IndexName) -> nat {
        match assoc_get(self.sets@, idx) {
            Some(mem) => mem@.len(),
            None => 0,
        }
    }

    /// The primary entry under `k` (presence, bytes and expiry) agrees
    /// between `self` and `other`.
    pub open spec fn entry_unchanged(self, other: MemStore, k: RedisKey) -> bool {
        self.spec_value(k) == other.spec_value(k) && self.spec_contains_key(k)
            == other.spec_contains_key(k) && self.spec_ttl(k) == other.spec_ttl(k)
    }

    /// An empty store.
    pub fn new() -> (r: MemStore)
        ensures
            r.wf(),
            forall|k: RedisKey| !r.spec_contains_key(k),
            forall|k: RedisKey| r.spec_value(k) is None,
            forall|idx: IndexName, m: RedisKey| !r.spec_index_has(idx, m),
    {
        MemStore { entries: Vec::new(), sets: Vec::new() }
    }

    fn find_entry(&self, k: &RedisKey) -> (r: Option<usize>)
        ensures
            match r {
                Some(i) => 0 <= i < self.entries@.len() && self.entries@[i as int].0 == *k,
                None => !has_key(self.entries@, *k),
            },
    {
        let mut i: usize = 0;
        while i < self.entries.len()
            invariant
                0 <= i <= self.entries@.len(),
                forall|j: int| 0 <= j < i ==> (#[trigger] self.entries@[j]).0 != *k,
            decreases self.entries@.len() - i,
        {
            if key_eq(&self.entries[i].0, k) {
                return Some(i);
            }
            i += 1;
        }
        None
    }

    fn find_set(&self, idx: &IndexName) -> (r: Option<usize>)
        ensures
            match r {
                Some(i) => 0 <= i < self.sets@.len() && self.sets@[i as int].0 == *idx,
                None => !has_key(self.sets@, *idx),
            },
    {
        let mut i: usize = 0;
        while i < self.sets.len()
            invariant
                0 <= i <= self.sets@.len(),
                forall|j: int| 0 <= j < i ==> (#[trigger] self.sets@[j]).0 != *idx,
            decreases self.sets@.len() - i,
        {
            if self.sets[i].0 == *idx {
                return Some(i);
            }
            i += 1;
        }
        None
    }

    /// Write `value` under `key`, recording the expiry; an existing entry is
    /// replaced. Index sets are untouched.
    pub fn set(&mut self, key: RedisKey, value: Vec<u8>, ttl: Option<u64>)
        requires
            old(self).wf(),
        ensures
            final(self).wf(),
            final(self).spec_contains_key(key),
            final(self).spec_value(key) == Some(value@),
            final(self).spec_ttl(key) == ttl,
            forall|k2: RedisKey|
                k2 != key ==> #[trigger] final(self).entry_unchanged(*old(self), k2),
            forall|idx: IndexName, m: RedisKey|
                #[trigger] final(self).spec_index_has(idx, m) == old(self).spec_index_has(idx, m),
            forall|idx: IndexName|
                #[trigger] final(self).spec_scard(idx) == old(self).spec_scard(idx),
    {
        let found = self.find_entry(&key);
        let ghost ev = (value, ttl);
        match found {
            Some(i) => {
                let ghost pre = self.entries@;
                let _ = self.entries.remove(i);
                proof {
                    assert(pre[i as int].0 == key);
                    lemma_assoc_remove(pre, i as int);
                }
                let ghost mid = self.entries@;
                self.entries.push((key, (value, ttl)));
                proof {
                    lemma_assoc_push(mid, key, ev);
                    assert(self.entries@ == mid.push((key, ev)));
                }
            },
            None => {
                let ghost pre = self.entries@;
                self.entries.push((key, (value, ttl)));
                proof {
                    lemma_assoc_push(pre, key, ev);
                    assert(self.entries@ == pre.push((key, ev)));
                }
            },
        }
    }

    /// Remove the primary key, if present. Index sets are untouched.
    pub fn del(&mut self, key: RedisKey)
        requires
            old(self).wf(),
        ensures
            final(self).wf(),
            !final(self).spec_contains_key(key),
            final(self).spec_value(key) is None,
            forall|k2: RedisKey|
                k2 != key ==> #[trigger] final(self).entry_unchanged(*old(self), k2),
            forall|idx: IndexName, m: RedisKey|
                #[trigger] final(self).spec_index_has(idx, m) == old(self).spec_index_has(idx, m),
            forall|idx: IndexName|
                #[trigger] final(self).spec_scard(idx) == old(self).spec_scard(idx),
    {
        let found = self.find_entry(&key);
        if let Some(i) = found {
            let ghost pre = self.entries@;
            let _ = self.entries.remove(i);
            proof {
                assert(pre[i as int].0 == key);
                lemma_assoc_remove(pre, i as int);
            }
        }
    }

    /// Add `member` to the index set `idx`, creating the set if needed.
    /// Primary entries are untouched.
    pub fn sadd(&mut self, index: IndexName, member: RedisKey)
        requires
            old(self).wf(),
        ensures
            final(self).wf(),
            forall|idx: IndexName, m: RedisKey|
                #[trigger] final(self).spec_index_has(idx, m) == (old(self).spec_index_has(idx, m)
                    || (idx == index && m == member)),
            forall|k2: RedisKey| #[trigger] final(self).entry_unchanged(*old(self), k2),
    {
        let found = self.find_set(&index);
        match found {
            Some(i) => {
                let present = contains_key_vec(&self.sets[i].1, &member);
                if !present {
                    let ghost pre = self.sets@;
                    let (name, mut mem) = self.sets.remove(i);
                    let ghost mem0 = mem@;
                    mem.push(member);
                    let ghost memv = mem;
                    self.sets.push((name, mem));
                    proof {
                        assert(pre[i as int].0 == index);
                        lemma_assoc_remove(pre, i as int);
                        lemma_assoc_push(pre.remove(i as int), index, memv);
                        assert(self.sets@ == pre.remove(i as int).push((index, memv)));
                        lemma_push_contains(mem0, member);
                        assert(memv@ == mem0.push(member));
                        assert(assoc_get(pre, index) == Some(pre[i as int].1)) by {
                            let j = assoc_at(pre, index);
                            assert(0 <= j < pre.len() && pre[j].0 == index);
                            if j < i as int {
                                assert(pre[j].0 != pre[i as int].0);
                            } else if (i as int) < j {
                                assert(pre[i as int].0 != pre[j].0);
                            }
                        }
                    }
                }
            },
            None => {
                let ghost pre = self.sets@;
                let mut mem: Vec<RedisKey> = Vec::new();
                mem.push(member);
                let ghost memv = mem;
                self.sets.push((index, mem));
                proof {
                    lemma_assoc_push(pre, index, memv);
                    assert(self.sets@ == pre.push((index, memv)));
                    assert(memv@ =~= Seq::<RedisKey>::empty().push(member));
                    lemma_push_contains(Seq::<RedisKey>::empty(), member);
                    assert(forall|y: RedisKey| !(#[trigger] Seq::<RedisKey>::empty().contains(y)));
                }
            },
        }
    }

    /// Remove `member` from the index set `idx`; a set left empty is
    /// dropped. Primary entries are untouched.
    pub fn srem(&mut self, index: IndexName, member: RedisKey)
        requires
            old(self).wf(),
        ensures
            final(self).wf(),
            forall|idx: IndexName, m: RedisKey|
                #[trigger] final(self).spec_index_has(idx, m) == (old(self).spec_index_has(idx, m)
                    && !(idx == index && m == member)),
            forall|k2: RedisKey| #[trigger] final(self).entry_unchanged(*old(self), k2),
    {
        let found = self.find_set(&index);
        if let Some(i) = found {
            let pos = find_key_vec(&self.sets[i].1, &member);
            if let Some(j) = pos {
                let ghost pre = self.sets@;
                let (name, mut mem) = self.sets.remove(i);
                let ghost mem0 = mem@;
                let _ = mem.remove(j);
                proof {
                    assert(pre[i as int].0 == index);
                    lemma_assoc_remove(pre, i as int);
                    lemma_distinct_remove(mem0, j as int);
                    assert(mem0[j as int] == member);
                    assert(assoc_get(pre, index) == Some(pre[i as int].1)) by {
                        let j2 = assoc_at(pre, index);
                        assert(0 <= j2 < pre.len() && pre[j2].0 == index);
                        if j2 < i as int {
                            assert(pre[j2].0 != pre[i as int].0);
                        } else if (i as int) < j2 {
                            assert(pre[i as int].0 != pre[j2].0);
                        }
                    }
                }
                if mem.len() > 0 {
                    let ghost mid = self.sets@;
                    let ghost memv = mem;
                    self.sets.push((name, mem));
                    proof {
                        lemma_assoc_push(mid, index, memv);
                        assert(self.sets@ == mid.push((index, memv)));
                    }
                }
            }
        }
    }

    /// Remove an index set wholesale. Primary entries are untouched.
    pub fn del_index(&mut self, index: IndexName)
        requires
            old(self).wf(),
        ensures
            final(self).wf(),
            forall|idx: IndexName, m: RedisKey|
                #[trigger] final(self).spec_index_has(idx, m) == (old(self).spec_index_has(idx, m)
                    && idx != index),
            !final(self).spec_has_index(index),
            forall|k2: RedisKey| #[trigger] final(self).entry_unchanged(*old(self), k2),
    {
        let found = self.find_set(&index);
        if let Some(i) = found {
            let ghost pre = self.sets@;
            let _ = self.sets.remove(i);
            proof {
                assert(pre[i as int].0 == index);
                lemma_assoc_remove(pre, i as int);
            }
        }
    }

    /// Whether a primary key exists.
    pub fn contains(&self, key: &RedisKey) -> (r: bool)
        ensures
            r == self.spec_contains_key(*key),
    {
        match self.find_entry(key) {
            Some(i) => {
                proof {
                    assert(has_key(self.entries@, *key));
                }
                true
            },
            None => false,
        }
    }

    /// The bytes under a primary key, or `None` when it is absent.
    pub fn get(&self, key: &RedisKey) -> (r: Option<Vec<u8>>)
        requires
            self.wf(),
        ensures
            match r {
                Some(v) => self.spec_value(*key) == Some(v@),
                None => self.spec_value(*key) is None,
            },
    {
        match self.find_entry(key) {
            Some(i) => {
                proof {
                    assert(has_key(self.entries@, *key));
                    let j = assoc_at(self.entries@, *key);
                    assert(0 <= j < self.entries@.len() && self.entries@[j].0 == *key);
                    if j < i as int {
                        assert(self.entries@[j].0 != self.entries@[i as int].0);
                    } else if (i as int) < j {
                        assert(self.entries@[i as int].0 != self.entries@[j].0);
                    }
                }
                Some(clone_bytes(&self.entries[i].1.0))
            },
            None => None,
        }
    }

    /// The members of an index set; empty when the set is absent.
    pub fn smembers(&self, index: &IndexName) -> (r: Vec<RedisKey>)
        requires
            self.wf(),
        ensures
            distinct(r@),
            forall|m: RedisKey| #[trigger] r@.contains(m) == self.spec_index_has(*index, m),
    {
        match self.find_set(index) {
            Some(i) => {
                proof {
                    assert(has_key(self.sets@, *index));
                    let j = assoc_at(self.sets@, *index);
                    assert(0 <= j < self.sets@.len() && self.sets@[j].0 == *index);
                    if j < i as int {
                        assert(self.sets@[j].0 != self.sets@[i as int].0);
                    } else if (i as int) < j {
                        assert(self.sets@[i as int].0 != self.sets@[j].0);
                    }
                }
                clone_keys(&self.sets[i].1)
            },
            None => {
                let r: Vec<RedisKey> = Vec::new();
                proof {
                    assert(forall|m: RedisKey| !r@.contains(m));
                }
                r
            },
        }
    }

    /// The cardinality of an index set; zero when it is absent.
    pub fn scard(&self, index: &IndexName) -> (r: usize)
        requires
            self.wf(),
        ensures
            r as nat == self.spec_scard(*index),
    {
        match self.find_set(index) {
            Some(i) => {
                proof {
                    assert(has_key(self.sets@, *index));
                    let j = assoc_at(self.sets@, *index);
                    assert(0 <= j < self.sets@.len() && self.sets@[j].0 == *index);
                    if j < i as int {
                        assert(self.sets@[j].0 != self.sets@[i as int].0);
                    } else if (i as int) < j {
                        assert(self.sets@[i as int].0 != self.sets@[j].0);
                    }
                }
                self.sets[i].1.len()
            },
            None => 0,
        }
    }

    /// Cardinalities of the four global indices.
    pub fn stats(&self) -> (r: CacheStats)
        requires
            self.wf(),
        ensures
            r.channels as nat == self.spec_scard(IndexName::Channels),
            r.guilds as nat == self.spec_scard(IndexName::Guilds),
            r.members as nat == self.spec_scard(IndexName::Members),
            r.roles as nat == self.spec_scard(IndexName::Roles),
    {
        CacheStats {
            channels: self.scard(&IndexName::Channels),
            guilds: self.scard(&IndexName::Guilds),
            members: self.scard(&IndexName::Members),
            roles: self.scard(&IndexName::Roles),
        }
    }
}

/// Whether some pair of the batch writes `k`.
pub open spec fn batch_has(pairs: Seq<(RedisKey, Vec<u8>)>, k: RedisKey) -> bool {
    exists|i: int| 0 <= i < pairs.len() && (#[trigger] pairs[i]).0 == k
}

/// The bytes the batch leaves under `k`: the last pair wins.
pub open spec fn batch_value(pairs: Seq<(RedisKey, Vec<u8>)>, k: RedisKey) -> Option<Seq<u8>>
    decreases pairs.len(),
{
    if pairs.len() == 0 {
        None
    } else if pairs.last().0 == k {
        Some(pairs.last().1@)
    } else {
        batch_value(pairs.drop_last(), k)
    }
}

proof fn lemma_batch_step(pairs: Seq<(RedisKey, Vec<u8>)>, done: int)
    requires
        0 <= done < pairs.len(),
    ensures
        forall|k: RedisKey|
            #[trigger] batch_has(pairs.take(done + 1), k) == (batch_has(pairs.take(done), k) || k
                == pairs[done].0),
        forall|k: RedisKey|
            k != pairs[done].0 ==> #[trigger] batch_value(pairs.take(done + 1), k) == batch_value(
                pairs.take(done),
                k,
            ),
        batch_value(pairs.take(done + 1), pairs[done].0) == Some(pairs[done].1@),
{
    let a = pairs.take(done);
    let b = pairs.take(done + 1);
    assert(b.drop_last() =~= a);
    assert(b.last() == pairs[done]);
    assert forall|k: RedisKey|
        #[trigger] batch_has(b, k) == (batch_has(a, k) || k == pairs[done].0) by {
        if batch_has(a, k) {
            let j = choose|j: int| 0 <= j < a.len() && a[j].0 == k;
            assert(b[j].0 == k);
        }
        if k == pairs[done].0 {
            assert(b[done].0 == k);
        }
        if batch_has(b, k) {
            let j = choose|j: int| 0 <= j < b.len() && b[j].0 == k;
            if j < done {
                assert(a[j].0 == k);
            }
        }
    }
}

impl MemStore {
    /// Write a value under its primary key, then add the key to every index
    /// it belongs to.
    pub fn put(&mut self, key: RedisKey, value: Vec<u8>, ttl: Option<u64>)
        requires
            old(self).wf(),
        ensures
            final(self).wf(),
            final(self).spec_contains_key(key),
            final(self).spec_value(key) == Some(value@),
            final(self).spec_ttl(key) == ttl,
            forall|k2: RedisKey|
                k2 != key ==> #[trigger] final(self).entry_unchanged(*old(self), k2),
            forall|idx: IndexName, m: RedisKey|
                #[trigger] final(self).spec_index_has(idx, m) == (old(self).spec_index_has(idx, m)
                    || (m == key && spec_indices_for(key).contains(idx))),
    {
        let ghost pre = *self;
        let ghost gv = value@;
        self.set(key, value, ttl);
        let idxs = indices_for(&key);
        let mut i: usize = 0;
        while i < idxs.len()
            invariant
                self.wf(),
                idxs@ == spec_indices_for(key),
                0 <= i <= idxs@.len(),
                self.spec_contains_key(key),
                self.spec_value(key) == Some(gv),
                self.spec_ttl(key) == ttl,
                forall|k2: RedisKey| k2 != key ==> #[trigger] self.entry_unchanged(pre, k2),
                forall|idx: IndexName, m: RedisKey|
                    #[trigger] self.spec_index_has(idx, m) == (pre.spec_index_has(idx, m) || (m
                        == key && idxs@.take(i as int).contains(idx))),
            decreases idxs@.len() - i,
        {
            let ghost mid = *self;
            self.sadd(idxs[i], key);
            proof {
                assert(idxs@.take(i as int + 1) =~= idxs@.take(i as int).push(idxs@[i as int]));
                lemma_push_contains(idxs@.take(i as int), idxs@[i as int]);
                assert(self.entry_unchanged(mid, key));
                assert forall|k2: RedisKey| k2 != key implies #[trigger] self.entry_unchanged(
                    pre,
                    k2,
                ) by {
                    assert(self.entry_unchanged(mid, k2));
                    assert(mid.entry_unchanged(pre, k2));
                }
                assert forall|idx: IndexName, m: RedisKey|
                    #[trigger] self.spec_index_has(idx, m) == (pre.spec_index_has(idx, m) || (m
                        == key && idxs@.take(i as int + 1).contains(idx))) by {
                    assert(self.spec_index_has(idx, m) == (mid.spec_index_has(idx, m) || (idx
                        == idxs@[i as int] && m == key)));
                    assert(mid.spec_index_has(idx, m) == (pre.spec_index_has(idx, m) || (m == key
                        && idxs@.take(i as int).contains(idx))));
                }
            }
            i += 1;
        }
        proof {
            assert(idxs@.take(idxs@.len() as int) =~= idxs@);
        }
    }

    /// Remove a primary key, then remove it from every index it belongs to.
    pub fn delete(&mut self, key: RedisKey)
        requires
            old(self).wf(),
        ensures
            final(self).wf(),
            !final(self).spec_contains_key(key),
            final(self).spec_value(key) is None,
            forall|k2: RedisKey|
                k2 != key ==> #[trigger] final(self).entry_unchanged(*old(self), k2),
            forall|idx: IndexName, m: RedisKey|
                #[trigger] final(self).spec_index_has(idx, m) == (old(self).spec_index_has(idx, m)
                    && !(m == key && spec_indices_for(key).contains(idx))),
    {
        let ghost pre = *self;
        self.del(key);
        let idxs = indices_for(&key);
        let mut i: usize = 0;
        while i < idxs.len()
            invariant
                self.wf(),
                idxs@ == spec_indices_for(key),
                0 <= i <= idxs@.len(),
                !self.spec_contains_key(key),
                self.spec_value(key) is None,
                forall|k2: RedisKey| k2 != key ==> #[trigger] self.entry_unchanged(pre, k2),
                forall|idx: IndexName, m: RedisKey|
                    #[trigger] self.spec_index_has(idx, m) == (pre.spec_index_has(idx, m) && !(m
                        == key && idxs@.take(i as int).contains(idx))),
            decreases idxs@.len() - i,
        {
            let ghost mid = *self;
            self.srem(idxs[i], key);
            proof {
                assert(idxs@.take(i as int + 1) =~= idxs@.take(i as int).push(idxs@[i as int]));
                lemma_push_contains(idxs@.take(i as int), idxs@[i as int]);
                assert(self.entry_unchanged(mid, key));
                assert forall|k2: RedisKey| k2 != key implies #[trigger] self.entry_unchanged(
                    pre,
                    k2,
                ) by {
                    assert(self.entry_unchanged(mid, k2));
                    assert(mid.entry_unchanged(pre, k2));
                }
                assert forall|idx: IndexName, m: RedisKey|
                    #[trigger] self.spec_index_has(idx, m) == (pre.spec_index_has(idx, m) && !(m
                        == key && idxs@.take(i as int + 1).contains(idx))) by {
                    assert(self.spec_index_has(idx, m) == (mid.spec_index_has(idx, m) && !(idx
                        == idxs@[i as int] && m == key)));
                    assert(mid.spec_index_has(idx, m) == (pre.spec_index_has(idx, m) && !(m == key
                        && idxs@.take(i as int).contains(idx))));
                }
            }
            i += 1;
        }
        proof {
            assert(idxs@.take(idxs@.len() as int) =~= idxs@);
        }
    }

    /// Write a batch of pairs, with one expiry policy for the whole batch.
    /// When a key occurs twice the later pair wins, as consecutive writes
    /// would.
    pub fn put_all(&mut self, pairs: Vec<(RedisKey, Vec<u8>)>, ttl: Option<u64>)
        requires
            old(self).wf(),
        ensures
            final(self).wf(),
            forall|k: RedisKey|
                #[trigger] batch_has(pairs@, k) ==> final(self).spec_contains_key(k) && final(self).spec_value(k) == batch_value(pairs@, k) && final(self).spec_ttl(k) == ttl,
            forall|k: RedisKey|
                !batch_has(pairs@, k) ==> #[trigger] final(self).entry_unchanged(*old(self), k),
            forall|idx: IndexName, m: RedisKey|
                #[trigger] final(self).spec_index_has(idx, m) == (old(self).spec_index_has(idx, m)
                    || (batch_has(pairs@, m) && spec_indices_for(m).contains(idx))),
    {
        let ghost pre = *self;
        let ghost orig = pairs@;
        let mut pairs = pairs;
        while pairs.len() > 0
            invariant
                self.wf(),
                pairs@ =~= orig.skip(orig.len() - pairs@.len()),
                pairs@.len() <= orig.len(),
                forall|k: RedisKey|
                    #[trigger] batch_has(orig.take(orig.len() - pairs@.len()), k) ==> self
                        .spec_contains_key(k) && self.spec_value(k) == batch_value(
                        orig.take(orig.len() - pairs@.len()),
                        k,
                    ) && self.spec_ttl(k) == ttl,
                forall|k: RedisKey|
                    !batch_has(orig.take(orig.len() - pairs@.len()), k) ==> #[trigger] self
                        .entry_unchanged(pre, k),
                forall|idx: IndexName, m: RedisKey|
                    #[trigger] self.spec_index_has(idx, m) == (pre.spec_index_has(idx, m) || (
                    batch_has(orig.take(orig.len() - pairs@.len()), m) && spec_indices_for(
                        m,
                    ).contains(idx))),
            decreases pairs@.len(),
        {
            let ghost done = orig.len() - pairs@.len();
            proof {
                assert(0 <= done < orig.len());
                assert(orig.skip(done)[0] == orig[done]);
            }
            let (k, v) = pairs.remove(0);
            let ghost gv = v@;
            proof {
                assert(k == orig[done].0 && v == orig[done].1);
                lemma_batch_step(orig, done);
            }
            let ghost mid = *self;
            self.put(k, v, ttl);
            proof {
                assert(pairs@ =~= orig.skip(done + 1));
                let t0 = orig.take(done);
                let t1 = orig.take(done + 1);
                assert forall|kk: RedisKey| #[trigger] batch_has(t1, kk) implies self
                    .spec_contains_key(kk) && self.spec_value(kk) == batch_value(t1, kk) && self
                    .spec_ttl(kk) == ttl by {
                    if kk == k {
                        assert(batch_value(t1, kk) == Some(gv));
                    } else {
                        assert(batch_has(t0, kk));
                        assert(self.entry_unchanged(mid, kk));
                        assert(batch_value(t1, kk) == batch_value(t0, kk));
                    }
                }
                assert forall|kk: RedisKey| !batch_has(t1, kk) implies #[trigger] self
                    .entry_unchanged(pre, kk) by {
                    assert(!batch_has(t0, kk) && kk != k);
                    assert(self.entry_unchanged(mid, kk));
                    assert(mid.entry_unchanged(pre, kk));
                }
                assert forall|idx: IndexName, m: RedisKey|
                    #[trigger] self.spec_index_has(idx, m) == (pre.spec_index_has(idx, m) || (
                    batch_has(t1, m) && spec_indices_for(m).contains(idx))) by {
                    assert(self.spec_index_has(idx, m) == (mid.spec_index_has(idx, m) || (m == k
                        && spec_indices_for(k).contains(idx))));
                    assert(mid.spec_index_has(idx, m) == (pre.spec_index_has(idx, m) || (
                    batch_has(t0, m) && spec_indices_for(m).contains(idx))));
                    assert(batch_has(t1, m) == (batch_has(t0, m) || m == k));
                }
            }
        }
        proof {
            assert(orig.take(orig.len() as int) =~= orig);
        }
    }

    /// Remove a batch of keys and their index memberships.
    pub fn delete_all(&mut self, keys: &Vec<RedisKey>)
        requires
            old(self).wf(),
        ensures
            final(self).wf(),
            forall|k: RedisKey|
                keys@.contains(k) ==> !final(self).spec_contains_key(k) && final(self).spec_value(
                    k,
                ) is None,
            forall|k: RedisKey|
                !keys@.contains(k) ==> #[trigger] final(self).entry_unchanged(*old(self), k),
            forall|idx: IndexName, m: RedisKey|
                #[trigger] final(self).spec_index_has(idx, m) == (old(self).spec_index_has(idx, m)
                    && !(keys@.contains(m) && spec_indices_for(m).contains(idx))),
    {
        let ghost pre = *self;
        let mut i: usize = 0;
        while i < keys.len()
            invariant
                self.wf(),
                0 <= i <= keys@.len(),
                forall|k: RedisKey|
                    keys@.take(i as int).contains(k) ==> !self.spec_contains_key(k) && self
                        .spec_value(k) is None,
                forall|k: RedisKey|
                    !keys@.take(i as int).contains(k) ==> #[trigger] self.entry_unchanged(pre, k),
                forall|idx: IndexName, m: RedisKey|
                    #[trigger] self.spec_index_has(idx, m) == (pre.spec_index_has(idx, m) && !(
                    keys@.take(i as int).contains(m) && spec_indices_for(m).contains(idx))),
            decreases keys@.len() - i,
        {
            let ghost mid = *self;
            self.delete(keys[i]);
            proof {
                assert(keys@.take(i as int + 1) =~= keys@.take(i as int).push(keys@[i as int]));
                lemma_push_contains(keys@.take(i as int), keys@[i as int]);
                let t0 = keys@.take(i as int);
                let t1 = keys@.take(i as int + 1);
                assert forall|kk: RedisKey| t1.contains(kk) implies !self.spec_contains_key(kk)
                    && self.spec_value(kk) is None by {
                    if kk != keys@[i as int] {
                        assert(t0.contains(kk));
                        assert(self.entry_unchanged(mid, kk));
                    }
                }
                assert forall|kk: RedisKey| !t1.contains(kk) implies #[trigger] self
                    .entry_unchanged(pre, kk) by {
                    assert(kk != keys@[i as int]);
                    assert(self.entry_unchanged(mid, kk));
                    assert(mid.entry_unchanged(pre, kk));
                }
                assert forall|idx: IndexName, m: RedisKey|
                    #[trigger] self.spec_index_has(idx, m) == (pre.spec_index_has(idx, m) && !(
                    t1.contains(m) && spec_indices_for(m).contains(idx))) by {
                    assert(self.spec_index_has(idx, m) == (mid.spec_index_has(idx, m) && !(m
                        == keys@[i as int] && spec_indices_for(keys@[i as int]).contains(idx))));
                    assert(mid.spec_index_has(idx, m) == (pre.spec_index_has(idx, m) && !(
                    t0.contains(m) && spec_indices_for(m).contains(idx))));
                }
            }
            i += 1;
        }
        proof {
            assert(keys@.take(keys@.len() as int) =~= keys@);
        }
    }

    /// Cascade-evict a guild: delete every record its index names, drop the
    /// index set, then delete the guild record itself. Records scoped to
    /// other guilds are untouched.
    pub fn evict_scope(&mut self, guild: u64)
        requires
            old(self).wf(),
        ensures
            final(self).wf(),
            forall|m: RedisKey|
                old(self).spec_index_has(IndexName::GuildScope(guild), m) ==> !final(self).spec_contains_key(m) && final(self).spec_value(m) is None,
            !final(self).spec_contains_key(RedisKey::Guild { guild }),
            !final(self).spec_has_index(IndexName::GuildScope(guild)),
            forall|k: RedisKey|
                !old(self).spec_index_has(IndexName::GuildScope(guild), k) && k != (
                RedisKey::Guild { guild }) ==> #[trigger] final(self).entry_unchanged(
                    *old(self),
                    k,
                ),
            forall|idx: IndexName, m: RedisKey|
                #[trigger] final(self).spec_index_has(idx, m) == (old(self).spec_index_has(idx, m)
                    && !(old(self).spec_index_has(IndexName::GuildScope(guild), m)
                    && spec_indices_for(m).contains(idx)) && idx != IndexName::GuildScope(guild)
                    && !(m == (RedisKey::Guild { guild }) && spec_indices_for(
                    RedisKey::Guild { guild },
                ).contains(idx))),
    {
        let ghost s0 = *self;
        let members = self.smembers(&IndexName::GuildScope(guild));
        self.delete_all(&members);
        let ghost s1 = *self;
        self.del_index(IndexName::GuildScope(guild));
        let ghost s2 = *self;
        self.delete(RedisKey::Guild { guild });
        proof {
            let gidx = IndexName::GuildScope(guild);
            let gkey = RedisKey::Guild { guild };
            assert forall|m: RedisKey| s0.spec_index_has(gidx, m) implies !self.spec_contains_key(
                m,
            ) && self.spec_value(m) is None by {
                assert(members@.contains(m));
                assert(!s1.spec_contains_key(m) && s1.spec_value(m) is None);
                assert(s2.entry_unchanged(s1, m));
                if m != gkey {
                    assert(self.entry_unchanged(s2, m));
                }
            }
            assert forall|k: RedisKey|
                !s0.spec_index_has(gidx, k) && k != gkey implies #[trigger] self.entry_unchanged(
                    s0,
                    k,
                ) by {
                assert(!members@.contains(k));
                assert(s1.entry_unchanged(s0, k));
                assert(s2.entry_unchanged(s1, k));
                assert(self.entry_unchanged(s2, k));
            }
            assert forall|idx: IndexName, m: RedisKey|
                #[trigger] self.spec_index_has(idx, m) == (s0.spec_index_has(idx, m) && !(
                s0.spec_index_has(gidx, m) && spec_indices_for(m).contains(idx)) && idx != gidx
                    && !(m == gkey && spec_indices_for(gkey).contains(idx))) by {
                assert(self.spec_index_has(idx, m) == (s2.spec_index_has(idx, m) && !(m == gkey
                    && spec_indices_for(gkey).contains(idx))));
                assert(s2.spec_index_has(idx, m) == (s1.spec_index_has(idx, m) && idx != gidx));
                assert(s1.spec_index_has(idx, m) == (s0.spec_index_has(idx, m) && !(
                members@.contains(m) && spec_indices_for(m).contains(idx))));
                assert(members@.contains(m) == s0.spec_index_has(gidx, m));
            }
            assert forall|m: RedisKey| !(#[trigger] self.spec_index_has(
                IndexName::GuildScope(guild),
                m,
            )) by {}
        }
    }

    /// Execute one store command.
    pub fn run(&mut self, cmd: StoreCommand)
        requires
            old(self).wf(),
        ensures
            final(self).wf(),
            match cmd {
                StoreCommand::Write { key, value, ttl } => final(self).spec_contains_key(key)
                    && final(self).spec_value(key) == Some(value@) && final(self).spec_ttl(key)
                    == ttl && (forall|k2: RedisKey|
                    k2 != key ==> #[trigger] final(self).entry_unchanged(*old(self), k2)) && (
                forall|idx: IndexName, m: RedisKey|
                    #[trigger] final(self).spec_index_has(idx, m) == old(self).spec_index_has(
                        idx,
                        m,
                    )),
                StoreCommand::SAdd { index, member } => (forall|idx: IndexName, m: RedisKey|
                    #[trigger] final(self).spec_index_has(idx, m) == (old(self).spec_index_has(
                        idx,
                        m,
                    ) || (idx == index && m == member))) && (forall|k2: RedisKey|
                    #[trigger] final(self).entry_unchanged(*old(self), k2)),
                StoreCommand::Del { key } => !final(self).spec_contains_key(key) && final(self).spec_value(key) is None && (forall|k2: RedisKey|
                    k2 != key ==> #[trigger] final(self).entry_unchanged(*old(self), k2)) && (
                forall|idx: IndexName, m: RedisKey|
                    #[trigger] final(self).spec_index_has(idx, m) == old(self).spec_index_has(
                        idx,
                        m,
                    )),
                StoreCommand::SRem { index, member } => (forall|idx: IndexName, m: RedisKey|
                    #[trigger] final(self).spec_index_has(idx, m) == (old(self).spec_index_has(
                        idx,
                        m,
                    ) && !(idx == index && m == member))) && (forall|k2: RedisKey|
                    #[trigger] final(self).entry_unchanged(*old(self), k2)),
                StoreCommand::DelIndex { index } => (forall|idx: IndexName, m: RedisKey|
                    #[trigger] final(self).spec_index_has(idx, m) == (old(self).spec_index_has(
                        idx,
                        m,
                    ) && idx != index)) && (forall|k2: RedisKey|
                    #[trigger] final(self).entry_unchanged(*old(self), k2)),
            },
    {
        match cmd {
            StoreCommand::Write { key, value, ttl } => self.set(key, value, ttl),
            StoreCommand::SAdd { index, member } => self.sadd(index, member),
            StoreCommand::Del { key } => self.del(key),
            StoreCommand::SRem { index, member } => self.srem(index, member),
            StoreCommand::DelIndex { index } => self.del_index(index),
        }
    }
}

fn contains_key_vec(v: &Vec<RedisKey>, m: &RedisKey) -> (r: bool)
    ensures
        r == v@.contains(*m),
{
    match find_key_vec(v, m) {
        Some(i) => {
            proof {
                assert(v@.contains(*m));
            }
            true
        },
        None => false,
    }
}

fn find_key_vec(v: &Vec<RedisKey>, m: &RedisKey) -> (r: Option<usize>)
    ensures
        match r {
            Some(i) => 0 <= i < v@.len() && v@[i as int] == *m,
            None => !v@.contains(*m),
        },
{
    let mut i: usize = 0;
    while i < v.len()
        invariant
            0 <= i <= v@.len(),
            forall|j: int| 0 <= j < i ==> v@[j] != *m,
        decreases v@.len() - i,
    {
        if key_eq(&v[i], m) {
            return Some(i);
        }
        i += 1;
    }
    proof {
        if v@.contains(*m) {
            let j = choose|j: int| 0 <= j < v@.len() && v@[j] == *m;
            assert(v@[j] != *m);
        }
    }
    None
}

fn clone_keys(v: &Vec<RedisKey>) -> (r: Vec<RedisKey>)
    ensures
        r@ == v@,
{
    let mut r: Vec<RedisKey> = Vec::new();
    let mut i: usize = 0;
    while i < v.len()
        invariant
            0 <= i <= v@.len(),
            r@ == v@.take(i as int),
        decreases v@.len() - i,
    {
        r.push(v[i]);
        proof {
            assert(r@ =~= v@.take(i as int + 1));
        }
        i += 1;
    }
    proof {
        assert(v@.take(v@.len() as int) =~= v@);
    }
    r
}

fn clone_bytes(v: &Vec<u8>) -> (r: Vec<u8>)
    ensures
        r@ == v@,
{
    let mut r: Vec<u8> = Vec::new();
    let mut i: usize = 0;
    while i < v.len()
        invariant
            0 <= i <= v@.len(),
            r@ == v@.take(i as int),
        decreases v@.len() - i,
    {
        r.push(v[i]);
        proof {
            assert(r@ =~= v@.take(i as int + 1));
        }
        i += 1;
    }
    proof {
        assert(v@.take(v@.len() as int) =~= v@);
    }
    r
}

fn push_sadds(r: &mut Vec<StoreCommand>, key: RedisKey, idxs: &Vec<IndexName>)
    requires
        idxs@ == spec_indices_for(key),
    ensures
        final(r)@ == old(r)@ + spec_sadds(key, spec_indices_for(key)),
{
    let ghost r0 = r@;
    let mut i: usize = 0;
    while i < idxs.len()
        invariant
            0 <= i <= idxs@.len(),
            idxs@ == spec_indices_for(key),
            r@ == r0 + spec_sadds(key, idxs@.take(i as int)),
        decreases idxs@.len() - i,
    {
        r.push(StoreCommand::SAdd { index: idxs[i], member: key });
        proof {
            assert(idxs@.take(i as int + 1).drop_last() =~= idxs@.take(i as int));
            assert(r@ =~= r0 + spec_sadds(key, idxs@.take(i as int + 1)));
        }
        i += 1;
    }
    proof {
        assert(idxs@.take(idxs@.len() as int) =~= idxs@);
    }
}

fn push_srems(r: &mut Vec<StoreCommand>, key: RedisKey, idxs: &Vec<IndexName>)
    requires
        idxs@ == spec_indices_for(key),
    ensures
        final(r)@ == old(r)@ + spec_srems(key, spec_indices_for(key)),
{
    let ghost r0 = r@;
    let mut i: usize = 0;
    while i < idxs.len()
        invariant
            0 <= i <= idxs@.len(),
            idxs@ == spec_indices_for(key),
            r@ == r0 + spec_srems(key, idxs@.take(i as int)),
        decreases idxs@.len() - i,
    {
        r.push(StoreCommand::SRem { index: idxs[i], member: key });
        proof {
            assert(idxs@.take(i as int + 1).drop_last() =~= idxs@.take(i as int));
            assert(r@ =~= r0 + spec_srems(key, idxs@.take(i as int + 1)));
        }
        i += 1;
    }
    proof {
        assert(idxs@.take(idxs@.len() as int) =~= idxs@);
    }
}

} // verus!
