//! Account configuration: login protocols, per-account settings and the
//! reconciliation of the configuration list against the account directories.

use vstd::prelude::*;
use crate::error::{ConfigError, ConfigKind, OperationKind};
use vstd::string::StringSliceAdditionalSpecFns;

verus! {

/// Login protocol an account presents to the IM network.
#[derive(Clone, Copy, Debug, PartialEq, Eq, Structural)]
pub enum Protocol {
    MacOS,
    IPAD,
    QiDian,
    AndroidPhone,
    AndroidWatch,
}

/// Settings of one controlled IM account.
#[derive(Clone, Copy, Debug, PartialEq, Eq, Structural)]
pub struct LoginConf {
    pub protocol: Protocol,
    pub auto_login: bool,
    pub id: i64,
}

/// The settings synthesized for an account directory that has no entry.
pub open spec fn default_conf(id: i64) -> LoginConf {
    LoginConf { protocol: Protocol::MacOS, auto_login: true, id }
}

impl LoginConf {
    /// Default settings for account `id`: automatic login over the default protocol.
    pub fn default_by_id(id: i64) -> (r: LoginConf)
        ensures
            r == default_conf(id),
    {
        LoginConf { protocol: Protocol::MacOS, auto_login: true, id }
    }
}

} // verus!

verus! {

/// The entry that the configuration list holds for `id`: as with a map filled
/// in list order, a later entry replaces an earlier one.
pub open spec fn conf_for(existing: Seq<LoginConf>, id: i64) -> Option<LoginConf>
    decreases existing.len(),
{
    if existing.len() == 0 {
        None
    } else if existing.last().id == id {
        Some(existing.last())
    } else {
        conf_for(existing.drop_last(), id)
    }
}

/// The settings used for the account directory `id`.
pub open spec fn entry_for(existing: Seq<LoginConf>, id: i64) -> LoginConf {
    match conf_for(existing, id) {
        Some(c) => c,
        None => default_conf(id),
    }
}

/// Entries whose account has no directory, in list order.
pub open spec fn unmatched(existing: Seq<LoginConf>, ids: Seq<i64>) -> Seq<LoginConf>
    decreases existing.len(),
{
    if existing.len() == 0 {
        Seq::empty()
    } else if ids.contains(existing.last().id) {
        unmatched(existing.drop_last(), ids)
    } else {
        unmatched(existing.drop_last(), ids).push(existing.last())
    }
}

/// Number of account directories without an entry.
pub open spec fn missing_count(ids: Seq<i64>, existing: Seq<LoginConf>) -> nat
    decreases ids.len(),
{
    if ids.len() == 0 {
        0
    } else {
        missing_count(ids.drop_last(), existing) + if conf_for(existing, ids.last()) is None {
            1nat
        } else {
            0nat
        }
    }
}

/// The reconciled list: one entry per account directory, in directory order,
/// followed by the entries whose directory is absent.
pub open spec fn reconciled(ids: Seq<i64>, existing: Seq<LoginConf>) -> Seq<LoginConf> {
    ids.map_values(|id: i64| entry_for(existing, id)) + unmatched(existing, ids)
}

/// Outcome of reconciling the configuration list against the account directories.
#[derive(Clone, Debug, PartialEq, Eq)]
pub struct Reconciled {
    pub entries: Vec<LoginConf>,
    /// How many default entries were synthesized; the list is rewritten when nonzero.
    pub synthesized: usize,
}

fn find_conf(existing: &Vec<LoginConf>, id: i64) -> (r: Option<LoginConf>)
    ensures
        r == conf_for(existing@, id),
{
    let mut found: Option<LoginConf> = None;
    let mut i: usize = 0;
    while i < existing.len()
        invariant
            i <= existing.len(),
            found == conf_for(existing@.subrange(0, i as int), id),
        decreases existing.len() - i,
    {
        assert(existing@.subrange(0, i + 1).drop_last() == existing@.subrange(0, i as int));
        if existing[i].id == id {
            found = Some(existing[i]);
        }
        i = i + 1;
    }
    assert(existing@.subrange(0, existing.len() as int) == existing@);
    found
}

fn contains_id(ids: &Vec<i64>, id: i64) -> (r: bool)
    ensures
        r == ids@.contains(id),
{
    let mut i: usize = 0;
    while i < ids.len()
        invariant
            i <= ids.len(),
            forall|j: int| 0 <= j < i ==> ids@[j] != id,
        decreases ids.len() - i,
    {
        if ids[i] == id {
            return true;
        }
        i = i + 1;
    }
    false
}

/// Reconciles the configuration list with the account directories found under
/// the configuration root. Every directory gets its listed entry, or a default
/// one; listed entries without a directory are kept after them. Fails with a
/// `NotFound` client error when there is no account directory at all.
pub fn reconcile(dir_ids: &Vec<i64>, existing: &Vec<LoginConf>) -> (r: Result<Reconciled, ConfigError>)
    ensures
        dir_ids@.len() == 0 <==> r is Err,
        r matches Err(e) ==> e.kind == ConfigKind::Client && e.operation == OperationKind::NotFound,
        r matches Ok(rec) ==> rec.entries@ == reconciled(dir_ids@, existing@)
            && rec.synthesized == missing_count(dir_ids@, existing@),
{
    if dir_ids.len() == 0 {
        return Err(ConfigError::new(ConfigKind::Client, OperationKind::NotFound));
    }
    let mut entries: Vec<LoginConf> = Vec::new();
    let mut synthesized: usize = 0;
    let mut i: usize = 0;
    while i < dir_ids.len()
        invariant
            i <= dir_ids.len(),
            entries@ == dir_ids@.subrange(0, i as int).map_values(|id: i64| entry_for(existing@, id)),
            synthesized == missing_count(dir_ids@.subrange(0, i as int), existing@),
            synthesized <= i,
        decreases dir_ids.len() - i,
    {
        assert(dir_ids@.subrange(0, i + 1).drop_last() == dir_ids@.subrange(0, i as int));
        let id = dir_ids[i];
        match find_conf(existing, id) {
            Some(c) => entries.push(c),
            None => {
                entries.push(LoginConf::default_by_id(id));
                synthesized = synthesized + 1;
            },
        }
        i = i + 1;
        assert(entries@ =~= dir_ids@.subrange(0, i as int).map_values(|id: i64| entry_for(existing@, id)));
    }
    assert(dir_ids@.subrange(0, dir_ids.len() as int) == dir_ids@);
    let ghost head = entries@;
    let mut rest: Vec<LoginConf> = Vec::new();
    let mut k: usize = 0;
    while k < existing.len()
        invariant
            k <= existing.len(),
            head == dir_ids@.map_values(|id: i64| entry_for(existing@, id)),
            rest@ == unmatched(existing@.subrange(0, k as int), dir_ids@),
        decreases existing.len() - k,
    {
        assert(existing@.subrange(0, k + 1).drop_last() == existing@.subrange(0, k as int));
        let c = existing[k];
        if !contains_id(dir_ids, c.id) {
            rest.push(c);
        }
        k = k + 1;
    }
    assert(existing@.subrange(0, existing.len() as int) == existing@);
    entries.append(&mut rest);
    Ok(Reconciled { entries, synthesized })
}

} // verus!

verus! {

pub open spec fn is_digit(b: u8) -> bool {
    48 <= b <= 57
}

pub open spec fn all_digits(s: Seq<u8>) -> bool {
    s.len() >= 1 && forall|i: int| 0 <= i < s.len() ==> is_digit(#[trigger] s[i])
}

/// Value of a run of ASCII decimal digits.
pub open spec fn digits_value(s: Seq<u8>) -> int
    decreases s.len(),
{
    if s.len() == 0 {
        0
    } else {
        digits_value(s.drop_last()) * 10 + (s.last() - 48)
    }
}

/// The account id a directory name spells: an optional sign, then one or more
/// decimal digits, within the range of `i64`.
pub open spec fn account_id_of(s: Seq<u8>) -> Option<i64> {
    let neg = s.len() > 0 && s[0] == 45u8;
    let digits = if s.len() > 0 && (s[0] == 45u8 || s[0] == 43u8) {
        s.drop_first()
    } else {
        s
    };
    let v = if neg {
        -digits_value(digits)
    } else {
        digits_value(digits)
    };
    if all_digits(digits) && i64::MIN <= v <= i64::MAX {
        Some(v as i64)
    } else {
        None
    }
}

proof fn lemma_digits_prefix(s: Seq<u8>, i: int)
    requires
        forall|k: int| 0 <= k < s.len() ==> is_digit(#[trigger] s[k]),
        0 <= i <= s.len(),
    ensures
        0 <= digits_value(s.subrange(0, i)) <= digits_value(s),
    decreases s.len(),
{
    if i == s.len() {
        assert(s.subrange(0, i) == s);
        if s.len() > 0 {
            lemma_digits_prefix(s.drop_last(), i - 1);
            assert(s.drop_last().subrange(0, i - 1) == s.drop_last());
        }
    } else {
        lemma_digits_prefix(s.drop_last(), i);
        assert(s.drop_last().subrange(0, i) == s.subrange(0, i));
    }
}

/// Reads the account id from the name of an account directory; `None` for a
/// name that is not a decimal number in the range of `i64`.
pub fn parse_account_id(name: &str) -> (r: Option<i64>)
    ensures
        r == account_id_of(name.spec_bytes()),
{
    let b = name.as_bytes();
    let ghost s = b@;
    let n = b.len();
    let neg = n > 0 && b[0] == 45u8;
    let start: usize = if n > 0 && (b[0] == 45u8 || b[0] == 43u8) {
        1
    } else {
        0
    };
    let ghost digits = s.subrange(start as int, n as int);
    assert(digits == if s.len() > 0 && (s[0] == 45u8 || s[0] == 43u8) { s.drop_first() } else { s });
    if start == n {
        return None;
    }
    let limit: i128 = 9223372036854775808;
    let mut acc: i128 = 0;
    let mut i: usize = start;
    while i < n
        invariant
            start <= i <= n,
            n == s.len(),
            b@ == s,
            digits == s.subrange(start as int, n as int),
            digits == (if s.len() > 0 && (s[0] == 45u8 || s[0] == 43u8) { s.drop_first() } else { s }),
            s == name.spec_bytes(),
            forall|k: int| 0 <= k < i - start ==> is_digit(#[trigger] digits[k]),
            acc == digits_value(digits.subrange(0, i - start)),
            0 <= acc <= limit,
            limit == 9223372036854775808,
        decreases n - i,
    {
        let c = b[i];
        if c < 48u8 || c > 57u8 {
            assert(!is_digit(digits[i - start]));
            assert(!all_digits(digits));
            return None;
        }
        assert(digits.subrange(0, i + 1 - start).drop_last() == digits.subrange(0, i - start));
        assert(acc * 10 <= 92233720368547758080) by (nonlinear_arith)
            requires
                0 <= acc <= 9223372036854775808,
        ;
        let next = acc * 10 + (c as i128 - 48);
        i = i + 1;
        if next > limit {
            proof {
                assert forall|k: int| 0 <= k < i - start implies is_digit(#[trigger] digits.subrange(0, i - start)[k]) by {
                    if k < i - 1 - start {
                        assert(digits.subrange(0, i - start)[k] == digits[k]);
                    }
                }
                if all_digits(digits) {
                    lemma_digits_prefix(digits, i - start);
                }
            }
            return None;
        }
        acc = next;
    }
    assert(digits.subrange(0, n - start) == digits);
    if neg {
        Some((0 - acc) as i64)
    } else if acc == limit {
        None
    } else {
        Some(acc as i64)
    }
}

} // verus!

