//! Typed addresses for cached entities and the codec between an address and
//! its flat store-key string.
//!
//! The string grammar is `<tag>`, `<tag>:<id>` or `<tag>:<id>:<id>`: ASCII,
//! colon-delimited, decimal unsigned identifiers, with one fixed tag per
//! entity kind. The guild scope that a channel or role address may carry in
//! memory is deliberately left out of the string form: it is redundant for
//! lookup and would destabilize the representation when the scope is unknown
//! at decode time.

use vstd::prelude::*;

use crate::error::CacheError;

verus! {

/// A typed, decoded identifier for one cached entity.
///
/// `guild` on `Channel` and `Role` is the owning scope, used only for
/// secondary-index maintenance; it does not appear in the encoded key.
#[derive(Clone, Copy, Debug, PartialEq, Eq)]
#[allow(inconsistent_fields)]
pub enum RedisKey {
    BotUser,
    Channel { guild: Option<u64>, channel: u64 },
    Guild { guild: u64 },
    Member { guild: u64, user: u64 },
    Role { guild: Option<u64>, role: u64 },
    Sessions,
    Shards,
}

/// Executable equality on addresses, usable in proofs.
pub fn key_eq(a: &RedisKey, b: &RedisKey) -> (r: bool)
    ensures
        r == (a == b),
{
    match (a, b) {
        (RedisKey::BotUser, RedisKey::BotUser) => true,
        (
            RedisKey::Channel { guild: g1, channel: c1 },
            RedisKey::Channel { guild: g2, channel: c2 },
        ) => opt_eq(g1, g2) && c1 == c2,
        (RedisKey::Guild { guild: g1 }, RedisKey::Guild { guild: g2 }) => g1 == g2,
        (
            RedisKey::Member { guild: g1, user: u1 },
            RedisKey::Member { guild: g2, user: u2 },
        ) => g1 == g2 && u1 == u2,
        (RedisKey::Role { guild: g1, role: r1 }, RedisKey::Role { guild: g2, role: r2 }) => {
            opt_eq(g1, g2) && r1 == r2
        },
        (RedisKey::Sessions, RedisKey::Sessions) => true,
        (RedisKey::Shards, RedisKey::Shards) => true,
        _ => false,
    }
}

fn opt_eq(a: &Option<u64>, b: &Option<u64>) -> (r: bool)
    ensures
        r == (a == b),
{
    match (a, b) {
        (Some(x), Some(y)) => x == y,
        (None, None) => true,
        _ => false,
    }
}

// ---------------------------------------------------------------------------
// Decimal identifiers
// ---------------------------------------------------------------------------

pub open spec fn is_digit(c: char) -> bool {
    48 <= c as int && c as int <= 57
}

pub open spec fn digit_val(c: char) -> nat {
    (c as int - 48) as nat
}

pub open spec fn digit_char(d: nat) -> char {
    if d == 0 { '0' }
    else if d == 1 { '1' }
    else if d == 2 { '2' }
    else if d == 3 { '3' }
    else if d == 4 { '4' }
    else if d == 5 { '5' }
    else if d == 6 { '6' }
    else if d == 7 { '7' }
    else if d == 8 { '8' }
    else { '9' }
}

/// The canonical decimal form of `n`: most significant digit first, no
/// leading zeros.
pub open spec fn dec_digits(n: nat) -> Seq<char>
    decreases n,
{
    if n < 10 {
        seq![digit_char(n)]
    } else {
        dec_digits(n / 10).push(digit_char(n % 10))
    }
}

pub open spec fn all_digits(s: Seq<char>) -> bool {
    forall|i: int| 0 <= i < s.len() ==> is_digit(#[trigger] s[i])
}

/// The numeric value of a digit string, most significant digit first.
pub open spec fn dec_val(s: Seq<char>) -> nat
    decreases s.len(),
{
    if s.len() == 0 {
        0
    } else {
        dec_val(s.drop_last()) * 10 + digit_val(s.last())
    }
}

/// A token parses as a `u64` identifier when it is a nonempty run of ASCII
/// digits whose value fits in 64 bits. Leading zeros are tolerated.
pub open spec fn parses_u64(s: Seq<char>) -> bool {
    s.len() > 0 && all_digits(s) && dec_val(s) <= u64::MAX
}

proof fn lemma_digit_char_val(d: nat)
    requires
        d < 10,
    ensures
        is_digit(digit_char(d)),
        digit_val(digit_char(d)) == d,
{
}

/// The canonical decimal form is a wellformed digit string and evaluates
/// back to the number it was produced from.
pub proof fn lemma_dec_digits(n: nat)
    ensures
        dec_digits(n).len() >= 1,
        all_digits(dec_digits(n)),
        dec_val(dec_digits(n)) == n,
    decreases n,
{
    if n < 10 {
        lemma_digit_char_val(n);
        let s = dec_digits(n);
        assert(s.drop_last() =~= Seq::<char>::empty());
        assert(dec_val(Seq::<char>::empty()) == 0);
        assert(s.last() == digit_char(n));
        assert(dec_val(s) == dec_val(s.drop_last()) * 10 + digit_val(s.last()));
    } else {
        lemma_dec_digits(n / 10);
        lemma_digit_char_val(n % 10);
        let s = dec_digits(n);
        assert(s.drop_last() =~= dec_digits(n / 10));
        assert(dec_val(s) == (n / 10) * 10 + n % 10);
        assert((n / 10) * 10 + n % 10 == n) by (nonlinear_arith);
    }
}

/// On a digit string, the value of a prefix never exceeds the value of the
/// whole string.
proof fn lemma_dec_val_prefix(s: Seq<char>, i: int)
    requires
        0 <= i <= s.len(),
        all_digits(s),
    ensures
        dec_val(s.take(i)) <= dec_val(s),
    decreases s.len() - i,
{
    if i == s.len() {
        assert(s.take(i) =~= s);
    } else {
        assert(s.take(i + 1).drop_last() =~= s.take(i));
        assert(s.take(i + 1).last() == s[i]);
        let v = dec_val(s.take(i));
        assert(v * 10 >= v) by (nonlinear_arith);
        lemma_dec_val_prefix(s, i + 1);
    }
}

/// Parse a nonempty all-digit token; `None` exactly when the token is not a
/// valid `u64` identifier.
fn parse_u64(s: &str) -> (r: Option<u64>)
    ensures
        parses_u64(s@) ==> r == Some((dec_val(s@) as u64)),
        !parses_u64(s@) ==> r is None,
{
    let len = s.unicode_len();
    if len == 0 {
        return None;
    }
    let mut i: usize = 0;
    let mut acc: u64 = 0;
    while i < len
        invariant
            0 <= i <= len,
            len == s@.len(),
            all_digits(s@.take(i as int)),
            acc == dec_val(s@.take(i as int)),
        decreases len - i,
    {
        let c = s.get_char(i);
        let cv = c as u32;
        if cv < 48 || cv > 57 {
            assert(!is_digit(s@[i as int]));
            return None;
        }
        let d = (cv - 48) as u64;
        proof {
            assert(s@.take(i as int + 1).drop_last() =~= s@.take(i as int));
            assert(s@.take(i as int + 1).last() == s@[i as int]);
        }
        if acc > u64::MAX / 10 || (acc == u64::MAX / 10 && d > u64::MAX % 10) {
            proof {
                let full = dec_val(s@.take(i as int + 1));
                assert(full == acc * 10 + d);
                assert(acc * 10 + d > u64::MAX) by (nonlinear_arith)
                    requires
                        acc > u64::MAX / 10 || (acc == u64::MAX / 10 && d > u64::MAX % 10),
                        d <= 9,
                ;
                if all_digits(s@) {
                    lemma_dec_val_prefix(s@, i as int + 1);
                }
            }
            return None;
        }
        proof {
            assert(acc * 10 + d <= u64::MAX) by (nonlinear_arith)
                requires
                    acc <= u64::MAX / 10,
                    acc == u64::MAX / 10 ==> d <= u64::MAX % 10,
                    d <= 9,
            ;
        }
        acc = acc * 10 + d;
        i += 1;
    }
    proof {
        assert(s@.take(len as int) =~= s@);
    }
    Some(acc)
}

/// The decimal form of a `u64`, most significant digit first.
pub(crate) fn u64_to_dec(n: u64) -> (r: String)
    ensures
        r@ == dec_digits(n as nat),
    decreases n,
{
    proof {
        if n >= 10 {
            assert(n / 10 < n) by (nonlinear_arith)
                requires
                    n >= 10,
            ;
        }
    }
    if n < 10 {
        let r = digit_str(n).to_owned();
        proof {
            assert(r@ =~= dec_digits(n as nat));
        }
        r
    } else {
        let mut r = u64_to_dec(n / 10);
        r.append(digit_str(n % 10));
        proof {
            assert(r@ =~= dec_digits(n as nat));
        }
        r
    }
}

// ---------------------------------------------------------------------------
// Encoding
// ---------------------------------------------------------------------------

impl RedisKey {
    /// The canonical string form of this address. Channel and role scope is
    /// not part of the string.
    pub open spec fn spec_encode(self) -> Seq<char> {
        match self {
            RedisKey::BotUser => "bot_user"@,
            RedisKey::Channel { channel, .. } => "channel:"@ + dec_digits(channel as nat),
            RedisKey::Guild { guild } => "guild:"@ + dec_digits(guild as nat),
            RedisKey::Member { guild, user } => "member:"@ + dec_digits(guild as nat) + ":"@
                + dec_digits(user as nat),
            RedisKey::Role { role, .. } => "role:"@ + dec_digits(role as nat),
            RedisKey::Sessions => "gateway_sessions"@,
            RedisKey::Shards => "gateway_shards"@,
        }
    }

    /// The address a round trip through the string form reconstructs: the
    /// same address, minus the channel/role scope that the string omits.
    pub open spec fn decoded_form(self) -> RedisKey {
        match self {
            RedisKey::Channel { channel, .. } => RedisKey::Channel { guild: None, channel },
            RedisKey::Role { role, .. } => RedisKey::Role { guild: None, role },
            _ => self,
        }
    }

    /// Whether the address carries no scope that the string form drops.
    pub open spec fn scope_free(self) -> bool {
        self.decoded_form() == self
    }

    /// Produce the store-key string for this address.
    pub fn encode(&self) -> (r: String)
        ensures
            r@ == self.spec_encode(),
    {
        match self {
            RedisKey::BotUser => "bot_user".to_owned(),
            RedisKey::Channel { channel, .. } => {
                let mut r = "channel:".to_owned();
                r.append(u64_to_dec(*channel).as_str());
                r
            },
            RedisKey::Guild { guild } => {
                let mut r = "guild:".to_owned();
                r.append(u64_to_dec(*guild).as_str());
                r
            },
            RedisKey::Member { guild, user } => {
                let mut r = "member:".to_owned();
                r.append(u64_to_dec(*guild).as_str());
                r.append(":");
                r.append(u64_to_dec(*user).as_str());
                proof {
                    assert(r@ =~= self.spec_encode());
                }
                r
            },
            RedisKey::Role { role, .. } => {
                let mut r = "role:".to_owned();
                r.append(u64_to_dec(*role).as_str());
                r
            },
            RedisKey::Sessions => "gateway_sessions".to_owned(),
            RedisKey::Shards => "gateway_shards".to_owned(),
        }
    }
}

// ---------------------------------------------------------------------------
// Decoding
// ---------------------------------------------------------------------------

/// `s` is `<tag><digits>` where `tag` already ends in the delimiter.
pub open spec fn tag_form(s: Seq<char>, tag: Seq<char>) -> bool {
    s.len() > tag.len() && s.take(tag.len() as int) == tag && parses_u64(
        s.skip(tag.len() as int),
    )
}

pub open spec fn tag_val(s: Seq<char>, tag: Seq<char>) -> nat {
    dec_val(s.skip(tag.len() as int))
}

/// `s` is `member:<digits>:<digits>` with the second delimiter at `j`.
pub open spec fn member_split_at(s: Seq<char>, j: int) -> bool {
    let t = "member:"@.len() as int;
    s.len() > t && s.take(t) == "member:"@ && t <= j < s.len() && s[j] == ':' && parses_u64(
        s.subrange(t, j),
    ) && parses_u64(s.subrange(j + 1, s.len() as int))
}

pub open spec fn member_form(s: Seq<char>) -> bool {
    exists|j: int| member_split_at(s, j)
}

pub open spec fn member_sep(s: Seq<char>) -> int {
    choose|j: int| member_split_at(s, j)
}

/// What a key string decodes to: the unique address whose canonical form it
/// is, or an error for any other string.
pub open spec fn spec_decode(s: Seq<char>) -> Result<RedisKey, CacheError> {
    if s == "bot_user"@ {
        Ok(RedisKey::BotUser)
    } else if s == "gateway_sessions"@ {
        Ok(RedisKey::Sessions)
    } else if s == "gateway_shards"@ {
        Ok(RedisKey::Shards)
    } else if tag_form(s, "channel:"@) {
        Ok(RedisKey::Channel { guild: None, channel: tag_val(s, "channel:"@) as u64 })
    } else if tag_form(s, "guild:"@) {
        Ok(RedisKey::Guild { guild: tag_val(s, "guild:"@) as u64 })
    } else if tag_form(s, "role:"@) {
        Ok(RedisKey::Role { guild: None, role: tag_val(s, "role:"@) as u64 })
    } else if member_form(s) {
        let t = "member:"@.len() as int;
        let j = member_sep(s);
        Ok(
            RedisKey::Member {
                guild: dec_val(s.subrange(t, j)) as u64,
                user: dec_val(s.subrange(j + 1, s.len() as int)) as u64,
            },
        )
    } else {
        Err(CacheError::InvalidKey)
    }
}

/// Two split points of a member key coincide: the digit runs on either side
/// of the delimiter cannot contain another delimiter.
proof fn lemma_member_sep_unique(s: Seq<char>, j1: int, j2: int)
    requires
        member_split_at(s, j1),
        member_split_at(s, j2),
    ensures
        j1 == j2,
{
    let t = "member:"@.len() as int;
    if j1 < j2 {
        assert(s.subrange(t, j2)[j1 - t] == s[j1]);
        assert(is_digit(s[j1]));
    } else if j2 < j1 {
        assert(s.subrange(t, j1)[j2 - t] == s[j2]);
        assert(is_digit(s[j2]));
    }
}

/// Executable string equality, with its meaning over views.
pub fn str_eq(a: &str, b: &str) -> (r: bool)
    ensures
        r == (a@ == b@),
{
    let la = a.unicode_len();
    let lb = b.unicode_len();
    if la != lb {
        return false;
    }
    let mut i: usize = 0;
    while i < la
        invariant
            0 <= i <= la,
            la == a@.len(),
            la == b@.len(),
            forall|k: int| 0 <= k < i ==> a@[k] == b@[k],
        decreases la - i,
    {
        if a.get_char(i) != b.get_char(i) {
            return false;
        }
        i += 1;
    }
    proof {
        assert(a@ =~= b@);
    }
    true
}

/// The position of the first delimiter at or after `from`, or the length of
/// the string when there is none.
fn find_colon(s: &str, from: usize) -> (r: usize)
    requires
        from <= s@.len(),
    ensures
        from <= r <= s@.len(),
        r < s@.len() ==> s@[r as int] == ':',
        forall|k: int| from <= k < r ==> s@[k] != ':',
{
    let len = s.unicode_len();
    let mut i: usize = from;
    while i < len
        invariant
            from <= i <= len,
            len == s@.len(),
            forall|k: int| from <= k < i ==> s@[k] != ':',
        decreases len - i,
    {
        if s.get_char(i) == ':' {
            return i;
        }
        i += 1;
    }
    i
}

/// If `s` has tag form for a tag ending in the delimiter, then the first
/// delimiter of `s` sits exactly where the tag's delimiter is.
proof fn lemma_tag_form_first_colon(s: Seq<char>, tag: Seq<char>, p: int)
    requires
        tag_form(s, tag),
        tag.len() >= 1,
        tag.last() == ':',
        forall|k: int| 0 <= k < tag.len() - 1 ==> tag[k] != ':',
        0 <= p <= s.len(),
        forall|k: int| 0 <= k < p ==> s[k] != ':',
        p < s.len() ==> s[p] == ':',
    ensures
        p == tag.len() - 1,
        s.take(p) == tag.take(p),
{
    let tl = tag.len() as int;
    assert(s.take(tl)[tl - 1] == s[tl - 1]);
    assert(s[tl - 1] == ':');
    if p < tl - 1 {
        assert(s.take(tl)[p] == s[p]);
        assert(false);
    }
    assert(p == tl - 1);
    assert(s.take(p) =~= tag.take(p)) by {
        assert(forall|k: int| 0 <= k < p ==> s.take(tl)[k] == s[k]);
    }
}

/// Parse a store-key string back into the typed address it encodes.
///
/// Exactly the canonical forms are accepted: an unknown tag, a malformed
/// integer or a leftover token is rejected, never coerced.
pub fn decode(s: &str) -> (r: Result<RedisKey, CacheError>)
    ensures
        r == spec_decode(s@),
{
    if str_eq(s, "bot_user") {
        return Ok(RedisKey::BotUser);
    }
    if str_eq(s, "gateway_sessions") {
        return Ok(RedisKey::Sessions);
    }
    if str_eq(s, "gateway_shards") {
        return Ok(RedisKey::Shards);
    }
    let len = s.unicode_len();
    let p = find_colon(s, 0);
    if p == len {
        proof {
            reveal_strlit("channel:");
            assert("channel:"@.len() == 8);
            reveal_strlit("guild:");
            assert("guild:"@.len() == 6);
            reveal_strlit("role:");
            assert("role:"@.len() == 5);
            reveal_strlit("member:");
            assert("member:"@.len() == 7);
            if tag_form(s@, "channel:"@) {
                assert(s@.take(8)[7] == s@[7]);
            }
            if tag_form(s@, "guild:"@) {
                assert(s@.take(6)[5] == s@[5]);
            }
            if tag_form(s@, "role:"@) {
                assert(s@.take(5)[4] == s@[4]);
            }
            if member_form(s@) {
                let j = choose|j: int| member_split_at(s@, j);
                assert(s@[j] == ':');
            }
        }
        return Err(CacheError::InvalidKey);
    }
    let tag = s.substring_char(0, p);
    if str_eq(tag, "channel") {
        proof {
            reveal_strlit("channel");
            assert("channel"@.len() == 7);
            reveal_strlit("channel:");
            assert("channel:"@.len() == 8);
            reveal_strlit("guild:");
            assert("guild:"@.len() == 6);
            reveal_strlit("role:");
            assert("role:"@.len() == 5);
            reveal_strlit("member:");
            assert("member:"@.len() == 7);
        }
        assert(p == 7);
        let rest = s.substring_char(p + 1, len);
        proof {
            assert(rest@ =~= s@.skip(8));
            if tag_form(s@, "guild:"@) {
                lemma_tag_form_first_colon(s@, "guild:"@, p as int);
            }
            if tag_form(s@, "role:"@) {
                lemma_tag_form_first_colon(s@, "role:"@, p as int);
            }
            if member_form(s@) {
                let j = choose|j: int| member_split_at(s@, j);
                assert(s@.take(7)[6] == s@[6]);
            }
        }
        match parse_u64(rest) {
            Some(v) => {
                proof {
                    assert(s@.take(8) =~= "channel:"@) by {
                        assert(forall|k: int|
                            0 <= k < 7 ==> s@.take(8)[k] == #[trigger] tag@[k]);
                    }
                    assert(spec_decode(s@) == Ok::<RedisKey, CacheError>(
                        RedisKey::Channel { guild: None, channel: v }));
                }
                Ok(RedisKey::Channel { guild: None, channel: v })
            },
            None => {
                proof {
                    assert(spec_decode(s@) == Err::<RedisKey, CacheError>(CacheError::InvalidKey));
                }
                Err(CacheError::InvalidKey)
            },
        }
    } else if str_eq(tag, "guild") {
        proof {
            reveal_strlit("guild");
            assert("guild"@.len() == 5);
            reveal_strlit("channel:");
            assert("channel:"@.len() == 8);
            reveal_strlit("guild:");
            assert("guild:"@.len() == 6);
            reveal_strlit("role:");
            assert("role:"@.len() == 5);
            reveal_strlit("member:");
            assert("member:"@.len() == 7);
        }
        assert(p == 5);
        let rest = s.substring_char(p + 1, len);
        proof {
            assert(rest@ =~= s@.skip(6));
            if tag_form(s@, "channel:"@) {
                lemma_tag_form_first_colon(s@, "channel:"@, p as int);
            }
            if tag_form(s@, "role:"@) {
                lemma_tag_form_first_colon(s@, "role:"@, p as int);
            }
            if member_form(s@) {
                let j = choose|j: int| member_split_at(s@, j);
                assert(s@.take(7)[0] == s@[0]);
                assert(s@.take(5)[0] == s@[0]);
                assert(tag@[0] == 'g');
            }
        }
        match parse_u64(rest) {
            Some(v) => {
                proof {
                    assert(s@.take(6) =~= "guild:"@) by {
                        assert(forall|k: int|
                            0 <= k < 5 ==> s@.take(6)[k] == #[trigger] tag@[k]);
                    }
                    assert(spec_decode(s@) == Ok::<RedisKey, CacheError>(
                        RedisKey::Guild { guild: v }));
                }
                Ok(RedisKey::Guild { guild: v })
            },
            None => {
                proof {
                    assert(spec_decode(s@) == Err::<RedisKey, CacheError>(CacheError::InvalidKey));
                }
                Err(CacheError::InvalidKey)
            },
        }
    } else if str_eq(tag, "role") {
        proof {
            reveal_strlit("role");
            assert("role"@.len() == 4);
            reveal_strlit("channel:");
            assert("channel:"@.len() == 8);
            reveal_strlit("guild:");
            assert("guild:"@.len() == 6);
            reveal_strlit("role:");
            assert("role:"@.len() == 5);
            reveal_strlit("member:");
            assert("member:"@.len() == 7);
        }
        assert(p == 4);
        let rest = s.substring_char(p + 1, len);
        proof {
            assert(rest@ =~= s@.skip(5));
            if tag_form(s@, "channel:"@) {
                lemma_tag_form_first_colon(s@, "channel:"@, p as int);
            }
            if tag_form(s@, "guild:"@) {
                lemma_tag_form_first_colon(s@, "guild:"@, p as int);
            }
            if member_form(s@) {
                let j = choose|j: int| member_split_at(s@, j);
                assert(s@.take(7)[0] == s@[0]);
                assert(s@.take(4)[0] == s@[0]);
                assert(tag@[0] == 'r');
            }
        }
        match parse_u64(rest) {
            Some(v) => {
                proof {
                    assert(s@.take(5) =~= "role:"@) by {
                        assert(forall|k: int|
                            0 <= k < 4 ==> s@.take(5)[k] == #[trigger] tag@[k]);
                    }
                    assert(spec_decode(s@) == Ok::<RedisKey, CacheError>(
                        RedisKey::Role { guild: None, role: v }));
                }
                Ok(RedisKey::Role { guild: None, role: v })
            },
            None => {
                proof {
                    assert(spec_decode(s@) == Err::<RedisKey, CacheError>(CacheError::InvalidKey));
                }
                Err(CacheError::InvalidKey)
            },
        }
    } else if str_eq(tag, "member") {
        proof {
            reveal_strlit("member");
            assert("member"@.len() == 6);
            reveal_strlit("channel:");
            assert("channel:"@.len() == 8);
            reveal_strlit("guild:");
            assert("guild:"@.len() == 6);
            reveal_strlit("role:");
            assert("role:"@.len() == 5);
            reveal_strlit("member:");
            assert("member:"@.len() == 7);
        }
        assert(p == 6);
        proof {
            if tag_form(s@, "channel:"@) {
                lemma_tag_form_first_colon(s@, "channel:"@, p as int);
            }
            if tag_form(s@, "guild:"@) {
                lemma_tag_form_first_colon(s@, "guild:"@, p as int);
            }
            if tag_form(s@, "role:"@) {
                lemma_tag_form_first_colon(s@, "role:"@, p as int);
            }
            assert(s@.take(7) =~= "member:"@) by {
                assert(forall|k: int| 0 <= k < 6 ==> s@.take(7)[k] == #[trigger] tag@[k]);
            }
        }
        let q = find_colon(s, p + 1);
        if q == len {
            proof {
                if member_form(s@) {
                    let j = choose|j: int| member_split_at(s@, j);
                    assert(s@[j] == ':');
                }
            }
            return Err(CacheError::InvalidKey);
        }
        let gstr = s.substring_char(p + 1, q);
        let ustr = s.substring_char(q + 1, len);
        let gp = parse_u64(gstr);
        let up = parse_u64(ustr);
        proof {
            assert(gstr@ =~= s@.subrange(7, q as int));
            assert(ustr@ =~= s@.subrange(q as int + 1, s@.len() as int));
            if member_form(s@) {
                let j = choose|j: int| member_split_at(s@, j);
                if j < q {
                    assert(s@[j] != ':');
                } else if j > q {
                    assert(s@.subrange(7, j)[q as int - 7] == s@[q as int]);
                    assert(is_digit(s@[q as int]));
                }
                assert(j == q);
            }
        }
        match (gp, up) {
            (Some(g), Some(u)) => {
                proof {
                    assert(member_split_at(s@, q as int));
                    assert(member_form(s@));
                    lemma_member_sep_unique(s@, member_sep(s@), q as int);
                    assert(spec_decode(s@) == Ok::<RedisKey, CacheError>(
                        RedisKey::Member { guild: g, user: u }));
                }
                Ok(RedisKey::Member { guild: g, user: u })
            },
            _ => {
                proof {
                    assert(spec_decode(s@) == Err::<RedisKey, CacheError>(CacheError::InvalidKey));
                }
                Err(CacheError::InvalidKey)
            },
        }
    } else {
        proof {
            reveal_strlit("channel");
            assert("channel"@.len() == 7);
            reveal_strlit("guild");
            assert("guild"@.len() == 5);
            reveal_strlit("role");
            assert("role"@.len() == 4);
            reveal_strlit("member");
            assert("member"@.len() == 6);
            reveal_strlit("channel:");
            assert("channel:"@.len() == 8);
            reveal_strlit("guild:");
            assert("guild:"@.len() == 6);
            reveal_strlit("role:");
            assert("role:"@.len() == 5);
            reveal_strlit("member:");
            assert("member:"@.len() == 7);
            if tag_form(s@, "channel:"@) {
                lemma_tag_form_first_colon(s@, "channel:"@, p as int);
                assert(tag@ =~= "channel"@);
            }
            if tag_form(s@, "guild:"@) {
                lemma_tag_form_first_colon(s@, "guild:"@, p as int);
                assert(tag@ =~= "guild"@);
            }
            if tag_form(s@, "role:"@) {
                lemma_tag_form_first_colon(s@, "role:"@, p as int);
                assert(tag@ =~= "role"@);
            }
            if member_form(s@) {
                let j = choose|j: int| member_split_at(s@, j);
                assert(s@.take(7)[6] == s@[6]);
                assert(s@[6] == ':');
                assert(p <= 6);
                if p < 6 {
                    assert(s@.take(7)[p as int] == s@[p as int]);
                    assert(false);
                }
                assert(tag@ =~= "member"@) by {
                    assert(forall|k: int|
                        0 <= k < 6 ==> s@.take(7)[k] == #[trigger] tag@[k]);
                }
            }
        }
        Err(CacheError::InvalidKey)
    }
}

// ---------------------------------------------------------------------------
// The round trip
// ---------------------------------------------------------------------------

/// Decoding a produced key string reconstructs the address exactly, up to
/// the channel/role scope that the string form deliberately omits.
pub proof fn lemma_encode_decode(k: RedisKey)
    ensures
        spec_decode(k.spec_encode()) == Ok::<RedisKey, CacheError>(k.decoded_form()),
{
    reveal_strlit("bot_user");
    assert("bot_user"@.len() == 8);
    reveal_strlit("gateway_sessions");
    assert("gateway_sessions"@.len() == 16);
    reveal_strlit("gateway_shards");
    assert("gateway_shards"@.len() == 14);
    reveal_strlit("channel:");
    assert("channel:"@.len() == 8);
    reveal_strlit("guild:");
    assert("guild:"@.len() == 6);
    reveal_strlit("role:");
    assert("role:"@.len() == 5);
    reveal_strlit("member:");
    assert("member:"@.len() == 7);
    let s = k.spec_encode();
    match k {
        RedisKey::BotUser => {},
        RedisKey::Sessions => {},
        RedisKey::Shards => {},
        RedisKey::Channel { guild, channel } => {
            lemma_dec_digits(channel as nat);
            assert(s[0] == 'c');
            assert(s.take(8) =~= "channel:"@);
            assert(s.skip(8) =~= dec_digits(channel as nat));
            assert(tag_form(s, "channel:"@));
            assert(tag_val(s, "channel:"@) == channel as nat);
        },
        RedisKey::Guild { guild } => {
            lemma_dec_digits(guild as nat);
            assert(s[0] == 'g');
            assert(s[1] == 'u');
            if tag_form(s, "channel:"@) {
                assert(s.take(8)[0] == s[0]);
            }
            assert(s.take(6) =~= "guild:"@);
            assert(s.skip(6) =~= dec_digits(guild as nat));
            assert(tag_form(s, "guild:"@));
            assert(tag_val(s, "guild:"@) == guild as nat);
        },
        RedisKey::Role { guild, role } => {
            lemma_dec_digits(role as nat);
            assert(s[0] == 'r');
            if tag_form(s, "channel:"@) {
                assert(s.take(8)[0] == s[0]);
            }
            if tag_form(s, "guild:"@) {
                assert(s.take(6)[0] == s[0]);
            }
            assert(s.take(5) =~= "role:"@);
            assert(s.skip(5) =~= dec_digits(role as nat));
            assert(tag_form(s, "role:"@));
            assert(tag_val(s, "role:"@) == role as nat);
        },
        RedisKey::Member { guild, user } => {
            let dg = dec_digits(guild as nat);
            let du = dec_digits(user as nat);
            lemma_dec_digits(guild as nat);
            lemma_dec_digits(user as nat);
            reveal_strlit(":");
            assert(":"@.len() == 1);
            assert(":"@[0] == ':');
            assert(s =~= ("member:"@ + dg + ":"@) + du);
            assert(("member:"@ + dg + ":"@).len() == 8 + dg.len());
            assert(s[0] == 'm');
            if tag_form(s, "channel:"@) {
                assert(s.take(8)[0] == s[0]);
            }
            if tag_form(s, "guild:"@) {
                assert(s.take(6)[0] == s[0]);
            }
            if tag_form(s, "role:"@) {
                assert(s.take(5)[0] == s[0]);
            }
            let j = 7 + dg.len() as int;
            assert(s.take(7) =~= "member:"@);
            assert(s[j] == ':');
            assert(s.subrange(7, j) =~= dg);
            assert(s.subrange(j + 1, s.len() as int) =~= du);
            assert(member_split_at(s, j));
            assert(member_form(s));
            lemma_member_sep_unique(s, member_sep(s), j);
            assert(member_sep(s) == j);
            assert(dec_val(s.subrange(7, j)) == guild as nat);
            assert(dec_val(s.subrange(j + 1, s.len() as int)) == user as nat);
        },
    }
}

/// The exact round trip for addresses that carry no omitted scope: every
/// variant, every identifier value.
pub proof fn lemma_round_trip(k: RedisKey)
    requires
        k.scope_free(),
    ensures
        spec_decode(k.spec_encode()) == Ok::<RedisKey, CacheError>(k),
{
    lemma_encode_decode(k);
}

fn digit_str(d: u64) -> (r: &'static str)
    requires
        d < 10,
    ensures
        r@ =~= seq![digit_char(d as nat)],
{
    proof {
        reveal_strlit("0");
        reveal_strlit("1");
        reveal_strlit("2");
        reveal_strlit("3");
        reveal_strlit("4");
        reveal_strlit("5");
        reveal_strlit("6");
        reveal_strlit("7");
        reveal_strlit("8");
        reveal_strlit("9");
    }
    match d {
        0 => "0",
        1 => "1",
        2 => "2",
        3 => "3",
        4 => "4",
        5 => "5",
        6 => "6",
        7 => "7",
        8 => "8",
        _ => "9",
    }
}

} // verus!
