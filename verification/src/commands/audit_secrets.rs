//! `audit secrets`: weak, repeated, breached and old passwords.
use vstd::prelude::*;

use crate::codec::{hex_encode, hex_encode_upper, hex_text};
use crate::commands::ItemType;
use crate::error::{invalid_args, CliError, CliErrorView};
use crate::hash::{sha1, sha1_of, sha256, sha256_of};
use crate::text::{
    alnum, ascii_lower, ascii_upper, chars_of, cut_once, dec, decimal, digit, is_alnum, is_digit,
    is_lower, is_upper, join, joined, law_cutting_gives_both_sides, law_sides_are_cut_apart,
    lemma_shows_behind, lemma_shows_first, lemma_shows_last, lemma_shows_more,
    lemma_shows_more4, lines, lines_of, lower, same, same_ignoring_case, shows, split_once,
    text_range, texts, trim, trimmed, upper,
};
use crate::time::{parse_timestamp, timestamp_of};

verus! {

// ---------------------------------------------------------------------------
// Strength
// ---------------------------------------------------------------------------

/// The length that a password has at least.
pub const MIN_LENGTH: usize = 12;

/// The classes of characters that a password is missing.
pub open spec fn missing_classes(p: Seq<char>) -> Seq<Seq<char>> {
    let a = if exists|i: int| 0 <= i < p.len() && is_upper(#[trigger] p[i]) {
        Seq::empty()
    } else {
        seq!["uppercase"@]
    };
    let b = if exists|i: int| 0 <= i < p.len() && is_lower(#[trigger] p[i]) {
        Seq::empty()
    } else {
        seq!["lowercase"@]
    };
    let c = if exists|i: int| 0 <= i < p.len() && is_digit(#[trigger] p[i]) {
        Seq::empty()
    } else {
        seq!["digit"@]
    };
    let d = if exists|i: int| 0 <= i < p.len() && !is_alnum(#[trigger] p[i]) {
        Seq::empty()
    } else {
        seq!["special char"@]
    };
    a + b + c + d
}

/// Why a password is weak: too short, or else without a class of characters.
pub open spec fn weakness(p: Seq<char>) -> Option<Seq<char>> {
    if p.len() < MIN_LENGTH {
        Some("too short ("@ + decimal(p.len() as int) + " chars, minimum 12)"@)
    } else if missing_classes(p).len() > 0 {
        Some("missing: "@ + join(missing_classes(p), ", "@))
    } else {
        None
    }
}

/// A password is long enough and holds an upper-case letter, a lower-case
/// letter, a digit and a character that is neither letter nor digit, all of
/// ASCII.
pub open spec fn is_strong(p: Seq<char>) -> bool {
    &&& p.len() >= 12
    &&& exists|i: int| 0 <= i < p.len() && 'A' <= #[trigger] p[i] <= 'Z'
    &&& exists|i: int| 0 <= i < p.len() && 'a' <= #[trigger] p[i] <= 'z'
    &&& exists|i: int| 0 <= i < p.len() && '0' <= #[trigger] p[i] <= '9'
    &&& exists|i: int|
        0 <= i < p.len() && !('A' <= #[trigger] p[i] <= 'Z') && !('a' <= p[i] <= 'z') && !('0'
            <= p[i] <= '9')
}

/// A password is reported exactly when it is not strong: a short one is called
/// short, and any other is told at least one class that it lacks, and only
/// classes that it lacks.
pub proof fn law_only_strong_passwords_pass(p: Seq<char>)
    ensures
        weakness(p) is None <==> is_strong(p),
        p.len() >= 12 ==> (missing_classes(p).len() == 0 <==> is_strong(p)),
        missing_classes(p).contains("uppercase"@) <==> (forall|i: int|
            0 <= i < p.len() ==> !('A' <= #[trigger] p[i] <= 'Z')),
        missing_classes(p).contains("lowercase"@) <==> (forall|i: int|
            0 <= i < p.len() ==> !('a' <= #[trigger] p[i] <= 'z')),
        missing_classes(p).contains("digit"@) <==> (forall|i: int|
            0 <= i < p.len() ==> !('0' <= #[trigger] p[i] <= '9')),
        missing_classes(p).contains("special char"@) <==> (forall|i: int|
            0 <= i < p.len() ==> ('A' <= #[trigger] p[i] <= 'Z' || 'a' <= p[i] <= 'z' || '0' <= p[i]
                <= '9')),
{
    reveal_strlit("uppercase");
    reveal_strlit("lowercase");
    reveal_strlit("digit");
    reveal_strlit("special char");
    let m = missing_classes(p);
    let up = exists|i: int| 0 <= i < p.len() && is_upper(#[trigger] p[i]);
    let low = exists|i: int| 0 <= i < p.len() && is_lower(#[trigger] p[i]);
    let dig = exists|i: int| 0 <= i < p.len() && is_digit(#[trigger] p[i]);
    let spe = exists|i: int| 0 <= i < p.len() && !is_alnum(#[trigger] p[i]);
    assert("uppercase"@[0] == 'u' && "lowercase"@[0] == 'l' && "digit"@[0] == 'd'
        && "special char"@[0] == 's');
    let a: int = if up {
        0
    } else {
        1
    };
    let b: int = if low {
        0
    } else {
        1
    };
    let c: int = if dig {
        0
    } else {
        1
    };
    if !up {
        assert(m[0] == "uppercase"@);
    }
    if !low {
        assert(m[a] == "lowercase"@);
    }
    if !dig {
        assert(m[a + b] == "digit"@);
    }
    if !spe {
        assert(m[a + b + c] == "special char"@);
    }
}

/// Why a password is weak, if it is.
pub fn check_strength(password: &str) -> (r: Option<String>)
    ensures
        crate::text::opt_text(r) == weakness(password@),
        r is None <==> is_strong(password@),
{
    proof {
        law_only_strong_passwords_pass(password@);
    }
    let v = chars_of(password);
    let ghost p = password@;
    let mut has_upper = false;
    let mut has_lower = false;
    let mut has_digit = false;
    let mut has_special = false;
    let mut i: usize = 0;
    while i < v.len()
        invariant
            i <= v@.len(),
            v@ == p,
            has_upper == exists|k: int| 0 <= k < i && is_upper(#[trigger] p[k]),
            has_lower == exists|k: int| 0 <= k < i && is_lower(#[trigger] p[k]),
            has_digit == exists|k: int| 0 <= k < i && is_digit(#[trigger] p[k]),
            has_special == exists|k: int| 0 <= k < i && !is_alnum(#[trigger] p[k]),
        decreases v@.len() - i,
    {
        let c = v[i];
        assert(p[i as int] == c);
        if upper(c) {
            has_upper = true;
        }
        if lower(c) {
            has_lower = true;
        }
        if digit(c) {
            has_digit = true;
        }
        if !alnum(c) {
            has_special = true;
        }
        i = i + 1;
    }
    if v.len() < MIN_LENGTH {
        return Some(
            "too short (".to_owned().concat(dec(v.len() as u128).as_str()).concat(
                " chars, minimum 12)",
            ),
        );
    }
    let mut missing: Vec<String> = Vec::new();
    if !has_upper {
        missing.push("uppercase".to_owned());
    }
    if !has_lower {
        missing.push("lowercase".to_owned());
    }
    if !has_digit {
        missing.push("digit".to_owned());
    }
    if !has_special {
        missing.push("special char".to_owned());
    }
    assert(texts(missing@) =~= missing_classes(p));
    if missing.len() > 0 {
        return Some("missing: ".to_owned().concat(joined(&missing, ", ").as_str()));
    }
    None
}

// ---------------------------------------------------------------------------
// Digests
// ---------------------------------------------------------------------------

/// The SHA-256 digest of a password, in lower-case hexadecimal.
pub open spec fn password_digest(p: Seq<char>) -> Seq<char> {
    hex_text(sha256_of(vstd::utf8::encode_utf8(p)))
}

/// The SHA-256 digest of a password.
pub fn sha256_hex(password: &str) -> (r: String)
    ensures
        r@ == password_digest(password@),
{
    hex_encode(sha256(password.as_bytes()).as_slice())
}

/// What is asked of the breach database: the address, and the rest of the
/// digest, which never leaves the program.
#[derive(Debug)]
pub struct RangeQuery {
    pub url: String,
    pub suffix: String,
}

/// The digest that the breach database knows a password by.
pub open spec fn breach_digest(p: Seq<char>) -> Seq<char> {
    ascii_upper(hex_text(sha1_of(vstd::utf8::encode_utf8(p))))
}

/// The question to the breach database: only the first five digits of the
/// digest are sent.
pub fn range_query(password: &str) -> (q: RangeQuery)
    ensures
        q.url@ == "https://api.pwnedpasswords.com/range/"@ + breach_digest(password@).take(5),
        q.suffix@ == breach_digest(password@).skip(5),
        breach_digest(password@).take(5) + q.suffix@ == breach_digest(password@),
        q.suffix@.len() == 35,
{
    let hash = hex_encode_upper(sha1(password.as_bytes()).as_slice());
    let v = chars_of(hash.as_str());
    assert(v@ == breach_digest(password@));
    assert(v@.len() == 40);
    let prefix = text_range(&v, 0, 5);
    let suffix = text_range(&v, 5, v.len());
    assert(prefix@ =~= v@.take(5));
    assert(suffix@ =~= v@.skip(5));
    RangeQuery {
        url: "https://api.pwnedpasswords.com/range/".to_owned().concat(prefix.as_str()),
        suffix,
    }
}

/// A line of the answer names the suffix, in any case.
pub open spec fn names_suffix(line: Seq<char>, suffix: Seq<char>) -> bool {
    split_once(line, ':') matches Some((head, _)) && ascii_lower(trim(head)) == ascii_lower(suffix)
}

/// The answer of the breach database: a line `SUFFIX:count` for each digest
/// that begins as asked.
pub fn check_hibp(body: &str, suffix: &str) -> (r: bool)
    ensures
        r == exists|i: int|
            0 <= i < lines(body@).len() && names_suffix(#[trigger] lines(body@)[i], suffix@),
{
    let v = lines_of(body);
    let ghost all = lines(body@);
    let mut i: usize = 0;
    while i < v.len()
        invariant
            i <= v@.len(),
            texts(v@) == all,
            all == lines(body@),
            forall|k: int| 0 <= k < i ==> !names_suffix(#[trigger] all[k], suffix@),
        decreases v@.len() - i,
    {
        assert(all[i as int] == v@[i as int]@);
        match cut_once(v[i].as_str(), ':') {
            Some((head, _count)) => {
                if same_ignoring_case(trimmed(head.as_str()).as_str(), suffix) {
                    assert(names_suffix(all[i as int], suffix@));
                    return true;
                }
            },
            None => {},
        }
        i = i + 1;
    }
    false
}

/// A refused request to the breach database.
pub fn hibp_status_error(status: u16) -> (e: CliError)
    ensures
        e@ == CliErrorView::InvalidArgs("HIBP API returned status "@ + decimal(status as int)),
{
    invalid_args("HIBP API returned status ".to_owned().concat(dec(status as u128).as_str()))
}

// ---------------------------------------------------------------------------
// The audit
// ---------------------------------------------------------------------------

/// The name of an item type in the report.
pub open spec fn label_of(t: ItemType) -> Seq<char> {
    match t {
        ItemType::Mnemonic => "mnemonic"@,
        ItemType::PrivateKey => "private_key"@,
        ItemType::Password => "password"@,
        ItemType::Totp => "totp"@,
        ItemType::Note => "note"@,
        ItemType::File => "file"@,
    }
}

/// The name of an item type in the report.
pub fn item_type_label(t: ItemType) -> (r: &'static str)
    ensures
        r@ == label_of(t),
{
    match t {
        ItemType::Mnemonic => "mnemonic",
        ItemType::PrivateKey => "private_key",
        ItemType::Password => "password",
        ItemType::Totp => "totp",
        ItemType::Note => "note",
        ItemType::File => "file",
    }
}

/// What came of opening an item.
#[derive(Debug)]
pub enum Opened {
    Unreadable(String),
    Undecryptable(String),
    Plain(String),
}

/// An item to audit.
#[derive(Debug)]
pub struct Audited {
    pub name: String,
    pub item_type: ItemType,
    pub updated_at: String,
    pub opened: Opened,
    /// Whether the breach database knows the password; `None` when it was not
    /// asked or did not answer.
    pub breached: Option<bool>,
}

/// A nanosecond count of a day.
pub const DAY_NANOS: i128 = 86_400_000_000_000;

/// An instant is more than `max_age` whole days before another.
pub open spec fn is_older(updated: int, now: int, max_age: u64) -> bool {
    let limit = if max_age > i64::MAX {
        i64::MAX as int
    } else {
        max_age as int
    };
    updated <= now && (now - updated) / (DAY_NANOS as int) > limit
}

/// A password was last changed too long ago. A time that cannot be read is
/// never too long ago.
pub open spec fn is_old(e: Audited, now: int, max_age: u64) -> bool {
    &&& e.item_type == ItemType::Password
    &&& timestamp_of(e.updated_at@) matches Ok(t) && is_older(t as int, now, max_age)
}

/// The password of an item that could be opened.
pub open spec fn password_of(e: Audited) -> Option<Seq<char>> {
    if e.item_type == ItemType::Password {
        match e.opened {
            Opened::Plain(p) => Some(p@),
            _ => None,
        }
    } else {
        None
    }
}

/// The names of the old passwords.
pub open spec fn old_names(v: Seq<Audited>, now: int, max_age: u64) -> Seq<Seq<char>>
    decreases v.len(),
{
    if v.len() == 0 {
        Seq::empty()
    } else {
        let rest = old_names(v.drop_last(), now, max_age);
        if is_old(v.last(), now, max_age) {
            rest.push(v.last().name@)
        } else {
            rest
        }
    }
}

/// The weak passwords, each with its name and the reason.
pub open spec fn weak_ones(v: Seq<Audited>) -> Seq<(Seq<char>, Seq<char>)>
    decreases v.len(),
{
    if v.len() == 0 {
        Seq::empty()
    } else {
        let rest = weak_ones(v.drop_last());
        match password_of(v.last()) {
            Some(p) => match weakness(p) {
                Some(reason) => rest.push((v.last().name@, reason)),
                None => rest,
            },
            None => rest,
        }
    }
}

/// The names of the breached passwords.
pub open spec fn breached_names(v: Seq<Audited>) -> Seq<Seq<char>>
    decreases v.len(),
{
    if v.len() == 0 {
        Seq::empty()
    } else {
        let rest = breached_names(v.drop_last());
        if password_of(v.last()) is Some && v.last().breached == Some(true) {
            rest.push(v.last().name@)
        } else {
            rest
        }
    }
}

/// The warnings about passwords that could not be opened.
pub open spec fn warnings_of(v: Seq<Audited>) -> Seq<Seq<char>>
    decreases v.len(),
{
    if v.len() == 0 {
        Seq::empty()
    } else {
        let rest = warnings_of(v.drop_last());
        let e = v.last();
        if e.item_type != ItemType::Password {
            rest
        } else {
            match e.opened {
                Opened::Unreadable(m) => rest.push(
                    "audit secrets: cannot read '"@ + e.name@ + "': "@ + m@,
                ),
                Opened::Undecryptable(m) => rest.push(
                    "audit secrets: cannot decrypt '"@ + e.name@ + "': "@ + m@,
                ),
                Opened::Plain(_) => rest,
            }
        }
    }
}

/// The names of the passwords that could be opened.
pub open spec fn opened_names(v: Seq<Audited>) -> Seq<Seq<char>>
    decreases v.len(),
{
    if v.len() == 0 {
        Seq::empty()
    } else {
        let rest = opened_names(v.drop_last());
        match password_of(v.last()) {
            Some(_) => rest.push(v.last().name@),
            None => rest,
        }
    }
}

/// The digests of the passwords that could be opened.
pub open spec fn opened_digests(v: Seq<Audited>) -> Seq<Seq<char>>
    decreases v.len(),
{
    if v.len() == 0 {
        Seq::empty()
    } else {
        let rest = opened_digests(v.drop_last());
        match password_of(v.last()) {
            Some(p) => rest.push(password_digest(p)),
            None => rest,
        }
    }
}

/// The names, among the first `n`, whose digest is `d`.
pub open spec fn names_with(
    names: Seq<Seq<char>>,
    digests: Seq<Seq<char>>,
    d: Seq<char>,
    n: int,
) -> Seq<Seq<char>>
    decreases n,
{
    if n <= 0 {
        Seq::empty()
    } else {
        let rest = names_with(names, digests, d, n - 1);
        if digests[n - 1] == d {
            rest.push(names[n - 1])
        } else {
            rest
        }
    }
}

/// The groups of more than one name with the same digest that begin among the
/// first `n`, each once.
pub open spec fn groups(names: Seq<Seq<char>>, digests: Seq<Seq<char>>, n: int) -> Seq<
    Seq<Seq<char>>,
>
    decreases n,
{
    if n <= 0 {
        Seq::empty()
    } else {
        let rest = groups(names, digests, n - 1);
        let group = names_with(names, digests, digests[n - 1], names.len() as int);
        if !digests.take(n - 1).contains(digests[n - 1]) && group.len() > 1 {
            rest.push(group)
        } else {
            rest
        }
    }
}

/// The groups of names that share a digest.
pub open spec fn duplicate_groups(names: Seq<Seq<char>>, digests: Seq<Seq<char>>) -> Seq<
    Seq<Seq<char>>,
> {
    groups(names, digests, names.len() as int)
}

/// Texts of texts.
pub open spec fn text_groups(v: Seq<Vec<String>>) -> Seq<Seq<Seq<char>>> {
    Seq::new(v.len(), |i: int| texts(v[i]@))
}

/// The groups of names that share a digest, in the order in which they begin.
pub fn duplicates(names: &Vec<String>, digests: &Vec<String>) -> (r: Vec<Vec<String>>)
    requires
        names@.len() == digests@.len(),
    ensures
        text_groups(r@) == duplicate_groups(texts(names@), texts(digests@)),
{
    let ghost ns = texts(names@);
    let ghost ds = texts(digests@);
    let mut out: Vec<Vec<String>> = Vec::new();
    let mut i: usize = 0;
    assert(text_groups(out@) =~= Seq::<Seq<Seq<char>>>::empty());
    while i < names.len()
        invariant
            i <= names@.len(),
            names@.len() == digests@.len(),
            ns == texts(names@),
            ds == texts(digests@),
            text_groups(out@) == groups(ns, ds, i as int),
        decreases names@.len() - i,
    {
        let mut seen = false;
        let mut j: usize = 0;
        while j < i
            invariant
                j <= i < names@.len(),
                names@.len() == digests@.len(),
                ds == texts(digests@),
                seen == ds.take(j as int).contains(ds[i as int]),
            decreases i - j,
        {
            let ghost next = ds.take(j + 1);
            assert(next =~= ds.take(j as int).push(ds[j as int]));
            let here = same(digests[j].as_str(), digests[i].as_str());
            proof {
                if here {
                    assert(next[j as int] == ds[i as int]);
                } else if seen {
                    let k = choose|k: int| 0 <= k < j && ds.take(j as int)[k] == ds[i as int];
                    assert(next[k] == ds[i as int]);
                } else if next.contains(ds[i as int]) {
                    let k = choose|k: int| 0 <= k < next.len() && next[k] == ds[i as int];
                    assert(ds.take(j as int)[k] == ds[i as int]);
                }
            }
            if here {
                seen = true;
            }
            j = j + 1;
        }
        if !seen {
            let mut group: Vec<String> = Vec::new();
            let mut k: usize = 0;
            assert(texts(group@) =~= Seq::<Seq<char>>::empty());
            while k < names.len()
                invariant
                    k <= names@.len(),
                    i < names@.len(),
                    names@.len() == digests@.len(),
                    ns == texts(names@),
                    ds == texts(digests@),
                    texts(group@) == names_with(ns, ds, ds[i as int], k as int),
                decreases names@.len() - k,
            {
                if same(digests[k].as_str(), digests[i].as_str()) {
                    let ghost before = group@;
                    group.push(names[k].clone());
                    assert(texts(group@) =~= texts(before).push(ns[k as int]));
                }
                k = k + 1;
            }
            if group.len() > 1 {
                let ghost before = out@;
                let ghost g = texts(group@);
                out.push(group);
                assert(text_groups(out@) =~= text_groups(before).push(g));
            }
        }
        i = i + 1;
    }
    out
}

/// How many items of each type there are.
#[derive(Clone, Copy, Debug, PartialEq, Eq, Structural)]
pub struct TypeCounts {
    pub file: usize,
    pub mnemonic: usize,
    pub note: usize,
    pub password: usize,
    pub private_key: usize,
    pub totp: usize,
}

/// How many items of a type there are.
pub open spec fn count_of(v: Seq<Audited>, t: ItemType) -> nat
    decreases v.len(),
{
    if v.len() == 0 {
        0
    } else {
        count_of(v.drop_last(), t) + if v.last().item_type == t {
            1nat
        } else {
            0nat
        }
    }
}

/// `c` counts the items of each type.
pub open spec fn counts(c: TypeCounts, v: Seq<Audited>) -> bool {
    &&& c.file == count_of(v, ItemType::File)
    &&& c.mnemonic == count_of(v, ItemType::Mnemonic)
    &&& c.note == count_of(v, ItemType::Note)
    &&& c.password == count_of(v, ItemType::Password)
    &&& c.private_key == count_of(v, ItemType::PrivateKey)
    &&& c.totp == count_of(v, ItemType::Totp)
}

/// The items of all types make up all items.
proof fn lemma_counts_add_up(v: Seq<Audited>)
    ensures
        count_of(v, ItemType::File) + count_of(v, ItemType::Mnemonic) + count_of(
            v,
            ItemType::Note,
        ) + count_of(v, ItemType::Password) + count_of(v, ItemType::PrivateKey) + count_of(
            v,
            ItemType::Totp,
        ) == v.len(),
    decreases v.len(),
{
    if v.len() > 0 {
        lemma_counts_add_up(v.drop_last());
    }
}

fn count_types(v: &Vec<Audited>) -> (c: TypeCounts)
    ensures
        counts(c, v@),
{
    let mut c = TypeCounts { file: 0, mnemonic: 0, note: 0, password: 0, private_key: 0, totp: 0 };
    let mut i: usize = 0;
    assert(v@.take(0) =~= Seq::<Audited>::empty());
    while i < v.len()
        invariant
            i <= v@.len(),
            counts(c, v@.take(i as int)),
        decreases v@.len() - i,
    {
        assert(v@.take(i + 1).drop_last() =~= v@.take(i as int));
        proof {
            lemma_counts_add_up(v@.take(i as int));
        }
        match v[i].item_type {
            ItemType::File => c.file = c.file + 1,
            ItemType::Mnemonic => c.mnemonic = c.mnemonic + 1,
            ItemType::Note => c.note = c.note + 1,
            ItemType::Password => c.password = c.password + 1,
            ItemType::PrivateKey => c.private_key = c.private_key + 1,
            ItemType::Totp => c.totp = c.totp + 1,
        }
        i = i + 1;
    }
    assert(v@.take(i as int) =~= v@);
    c
}

/// A weak password.
#[derive(Debug)]
pub struct WeakFinding {
    pub name: String,
    pub reason: String,
}

/// The findings over their texts.
pub open spec fn finding_texts(v: Seq<WeakFinding>) -> Seq<(Seq<char>, Seq<char>)> {
    Seq::new(v.len(), |i: int| (v[i].name@, v[i].reason@))
}

/// What an audit found.
#[derive(Debug)]
pub struct SecretReport {
    pub total: usize,
    pub by_type: TypeCounts,
    pub weak: Vec<WeakFinding>,
    pub duplicates: Vec<Vec<String>>,
    pub breached: Vec<String>,
    pub old: Vec<String>,
    pub warnings: Vec<String>,
}

/// `r` is what an audit of `v` finds.
pub open spec fn is_report(
    r: SecretReport,
    v: Seq<Audited>,
    now: int,
    max_age: u64,
    skip_hibp: bool,
) -> bool {
    &&& r.total == v.len()
    &&& counts(r.by_type, v)
    &&& finding_texts(r.weak@) == weak_ones(v)
    &&& text_groups(r.duplicates@) == duplicate_groups(opened_names(v), opened_digests(v))
    &&& texts(r.breached@) == if skip_hibp {
        Seq::empty()
    } else {
        breached_names(v)
    }
    &&& texts(r.old@) == old_names(v, now, max_age)
    &&& texts(r.warnings@) == warnings_of(v)
}

fn older(updated: i128, now: i128, max_age: u64) -> (r: bool)
    ensures
        r == is_older(updated as int, now as int, max_age),
{
    if updated > now {
        return false;
    }
    let limit: u128 = if max_age > 0x7fff_ffff_ffff_ffff {
        0x7fff_ffff_ffff_ffff
    } else {
        max_age as u128
    };
    let span: u128 = span_of(updated, now);
    let days: u128 = span / 86_400_000_000_000;
    days > limit
}

/// How far two instants are apart.
fn span_of(a: i128, b: i128) -> (r: u128)
    requires
        a <= b,
    ensures
        r == b - a,
{
    if a >= 0 || b < 0 {
        (b - a) as u128
    } else {
        let below: u128 = (-(a + 1)) as u128 + 1;
        below + b as u128
    }
}

fn old_passwords(v: &Vec<Audited>, now: i128, max_age: u64) -> (r: Vec<String>)
    ensures
        texts(r@) == old_names(v@, now as int, max_age),
{
    let mut out: Vec<String> = Vec::new();
    let mut i: usize = 0;
    assert(v@.take(0) =~= Seq::<Audited>::empty());
    assert(texts(out@) =~= Seq::<Seq<char>>::empty());
    while i < v.len()
        invariant
            i <= v@.len(),
            texts(out@) == old_names(v@.take(i as int), now as int, max_age),
        decreases v@.len() - i,
    {
        assert(v@.take(i + 1).drop_last() =~= v@.take(i as int));
        let e = &v[i];
        if e.item_type == ItemType::Password {
            if let Ok(t) = parse_timestamp(e.updated_at.as_str()) {
                if older(t, now, max_age) {
                    let ghost before = out@;
                    out.push(e.name.clone());
                    assert(texts(out@) =~= texts(before).push(e.name@));
                }
            }
        }
        i = i + 1;
    }
    assert(v@.take(i as int) =~= v@);
    out
}

fn weak_passwords(v: &Vec<Audited>) -> (r: Vec<WeakFinding>)
    ensures
        finding_texts(r@) == weak_ones(v@),
{
    let mut out: Vec<WeakFinding> = Vec::new();
    let mut i: usize = 0;
    assert(v@.take(0) =~= Seq::<Audited>::empty());
    assert(finding_texts(out@) =~= Seq::<(Seq<char>, Seq<char>)>::empty());
    while i < v.len()
        invariant
            i <= v@.len(),
            finding_texts(out@) == weak_ones(v@.take(i as int)),
        decreases v@.len() - i,
    {
        assert(v@.take(i + 1).drop_last() =~= v@.take(i as int));
        let e = &v[i];
        if e.item_type == ItemType::Password {
            if let Opened::Plain(p) = &e.opened {
                if let Some(reason) = check_strength(p.as_str()) {
                    let ghost before = out@;
                    let ghost text = reason@;
                    out.push(WeakFinding { name: e.name.clone(), reason });
                    assert(finding_texts(out@) =~= finding_texts(before).push((e.name@, text)));
                }
            }
        }
        i = i + 1;
    }
    assert(v@.take(i as int) =~= v@);
    out
}

fn breached_passwords(v: &Vec<Audited>) -> (r: Vec<String>)
    ensures
        texts(r@) == breached_names(v@),
{
    let mut out: Vec<String> = Vec::new();
    let mut i: usize = 0;
    assert(v@.take(0) =~= Seq::<Audited>::empty());
    assert(texts(out@) =~= Seq::<Seq<char>>::empty());
    while i < v.len()
        invariant
            i <= v@.len(),
            texts(out@) == breached_names(v@.take(i as int)),
        decreases v@.len() - i,
    {
        assert(v@.take(i + 1).drop_last() =~= v@.take(i as int));
        let e = &v[i];
        if e.item_type == ItemType::Password {
            if let Opened::Plain(_) = &e.opened {
                let hit = match e.breached {
                    Some(b) => b,
                    None => false,
                };
                if hit {
                    let ghost before = out@;
                    out.push(e.name.clone());
                    assert(texts(out@) =~= texts(before).push(e.name@));
                }
            }
        }
        i = i + 1;
    }
    assert(v@.take(i as int) =~= v@);
    out
}

fn open_warnings(v: &Vec<Audited>) -> (r: Vec<String>)
    ensures
        texts(r@) == warnings_of(v@),
{
    let mut out: Vec<String> = Vec::new();
    let mut i: usize = 0;
    assert(v@.take(0) =~= Seq::<Audited>::empty());
    assert(texts(out@) =~= Seq::<Seq<char>>::empty());
    while i < v.len()
        invariant
            i <= v@.len(),
            texts(out@) == warnings_of(v@.take(i as int)),
        decreases v@.len() - i,
    {
        assert(v@.take(i + 1).drop_last() =~= v@.take(i as int));
        let e = &v[i];
        if e.item_type == ItemType::Password {
            let ghost before = out@;
            match &e.opened {
                Opened::Unreadable(m) => {
                    let w = "audit secrets: cannot read '".to_owned().concat(
                        e.name.as_str(),
                    ).concat("': ").concat(m.as_str());
                    let ghost text = w@;
                    out.push(w);
                    assert(texts(out@) =~= texts(before).push(text));
                },
                Opened::Undecryptable(m) => {
                    let w = "audit secrets: cannot decrypt '".to_owned().concat(
                        e.name.as_str(),
                    ).concat("': ").concat(m.as_str());
                    let ghost text = w@;
                    out.push(w);
                    assert(texts(out@) =~= texts(before).push(text));
                },
                Opened::Plain(_) => {},
            }
        }
        i = i + 1;
    }
    assert(v@.take(i as int) =~= v@);
    out
}

fn repeated_passwords(v: &Vec<Audited>) -> (r: Vec<Vec<String>>)
    ensures
        text_groups(r@) == duplicate_groups(opened_names(v@), opened_digests(v@)),
{
    let mut names: Vec<String> = Vec::new();
    let mut digests: Vec<String> = Vec::new();
    let mut i: usize = 0;
    assert(v@.take(0) =~= Seq::<Audited>::empty());
    assert(texts(names@) =~= Seq::<Seq<char>>::empty());
    assert(texts(digests@) =~= Seq::<Seq<char>>::empty());
    while i < v.len()
        invariant
            i <= v@.len(),
            names@.len() == digests@.len(),
            texts(names@) == opened_names(v@.take(i as int)),
            texts(digests@) == opened_digests(v@.take(i as int)),
        decreases v@.len() - i,
    {
        assert(v@.take(i + 1).drop_last() =~= v@.take(i as int));
        let e = &v[i];
        if e.item_type == ItemType::Password {
            if let Opened::Plain(p) = &e.opened {
                let ghost before = names@;
                let ghost digested = digests@;
                names.push(e.name.clone());
                digests.push(sha256_hex(p.as_str()));
                assert(texts(names@) =~= texts(before).push(e.name@));
                assert(texts(digests@) =~= texts(digested).push(password_digest(p@)));
            }
        }
        i = i + 1;
    }
    assert(v@.take(i as int) =~= v@);
    duplicates(&names, &digests)
}

/// Audits the items of the store. Only passwords are looked into; one that
/// cannot be opened is warned about and passed over.
pub fn run(entries: &Vec<Audited>, now: i128, max_age: u64, skip_hibp: bool) -> (r: SecretReport)
    ensures
        is_report(r, entries@, now as int, max_age, skip_hibp),
{
    let breached: Vec<String> = if skip_hibp {
        Vec::new()
    } else {
        breached_passwords(entries)
    };
    assert(skip_hibp ==> texts(breached@) =~= Seq::<Seq<char>>::empty());
    SecretReport {
        total: entries.len(),
        by_type: count_types(entries),
        weak: weak_passwords(entries),
        duplicates: repeated_passwords(entries),
        breached,
        old: old_passwords(entries, now, max_age),
        warnings: open_warnings(entries),
    }
}

// ---------------------------------------------------------------------------
// The report
// ---------------------------------------------------------------------------

/// The line of a type, if there are items of it.
pub open spec fn type_line(label: Seq<char>, n: usize) -> Seq<char> {
    if n == 0 {
        Seq::empty()
    } else {
        "    "@ + label + ": "@ + decimal(n as int) + "\n"@
    }
}

fn show_type_line(label: &str, n: usize) -> (r: String)
    ensures
        r@ == type_line(label@, n),
{
    if n == 0 {
        return String::new();
    }
    "    ".to_owned().concat(label).concat(": ").concat(dec(n as u128).as_str()).concat("\n")
}

/// The lines of the types, by name.
pub open spec fn type_lines(c: TypeCounts) -> Seq<char> {
    type_line("file"@, c.file) + type_line("mnemonic"@, c.mnemonic) + type_line("note"@, c.note)
        + type_line("password"@, c.password) + type_line("private_key"@, c.private_key)
        + type_line("totp"@, c.totp)
}

/// How many items of a type there are.
#[derive(Clone, Copy, Debug)]
pub struct TypeCount {
    pub label: &'static str,
    pub count: usize,
}

/// The views of counts.
pub open spec fn counts_view(v: Seq<TypeCount>) -> Seq<(Seq<char>, usize)> {
    Seq::new(v.len(), |i: int| (v[i].label@, v[i].count))
}

/// The count of a type, if there are items of it.
pub open spec fn present(label: Seq<char>, n: usize) -> Seq<(Seq<char>, usize)> {
    if n == 0 {
        Seq::empty()
    } else {
        seq![(label, n)]
    }
}

/// The counts of the types of which there are items, by name.
pub open spec fn present_types(c: TypeCounts) -> Seq<(Seq<char>, usize)> {
    present("file"@, c.file) + present("mnemonic"@, c.mnemonic) + present("note"@, c.note)
        + present("password"@, c.password) + present("private_key"@, c.private_key) + present(
        "totp"@,
        c.totp,
    )
}

fn push_present(out: &mut Vec<TypeCount>, label: &'static str, count: usize)
    ensures
        counts_view(final(out)@) == counts_view(old(out)@) + present(label@, count),
{
    let ghost before = out@;
    if count > 0 {
        out.push(TypeCount { label, count });
        assert(counts_view(out@) =~= counts_view(before) + present(label@, count));
    }
    assert(counts_view(out@) =~= counts_view(before) + present(label@, count));
}

/// The counts of the types of which there are items, by name.
pub fn counted_types(c: &TypeCounts) -> (r: Vec<TypeCount>)
    ensures
        counts_view(r@) == present_types(*c),
{
    let mut out: Vec<TypeCount> = Vec::new();
    push_present(&mut out, "file", c.file);
    push_present(&mut out, "mnemonic", c.mnemonic);
    push_present(&mut out, "note", c.note);
    push_present(&mut out, "password", c.password);
    push_present(&mut out, "private_key", c.private_key);
    push_present(&mut out, "totp", c.totp);
    assert(counts_view(out@) =~= present_types(*c));
    out
}

/// A line for each text.
pub open spec fn bullets(v: Seq<Seq<char>>) -> Seq<char>
    decreases v.len(),
{
    if v.len() == 0 {
        Seq::empty()
    } else {
        bullets(v.drop_last()) + "  - "@ + v.last() + "\n"@
    }
}

fn show_bullets(v: &Vec<String>) -> (r: String)
    ensures
        r@ == bullets(texts(v@)),
{
    let mut out = String::new();
    let mut i: usize = 0;
    let ghost all = texts(v@);
    assert(all.take(0) =~= Seq::<Seq<char>>::empty());
    while i < v.len()
        invariant
            i <= v@.len(),
            all == texts(v@),
            out@ == bullets(all.take(i as int)),
        decreases v@.len() - i,
    {
        assert(all.take(i + 1).drop_last() =~= all.take(i as int));
        out = out.concat("  - ").concat(v[i].as_str()).concat("\n");
        i = i + 1;
    }
    assert(all.take(i as int) =~= all);
    out
}

/// The weak passwords as they are listed.
pub open spec fn weak_texts(v: Seq<WeakFinding>) -> Seq<Seq<char>> {
    Seq::new(v.len(), |i: int| v[i].name@ + " ("@ + v[i].reason@ + ")"@)
}

fn show_weak(v: &Vec<WeakFinding>) -> (r: Vec<String>)
    ensures
        texts(r@) == weak_texts(v@),
{
    let mut out: Vec<String> = Vec::new();
    let mut i: usize = 0;
    while i < v.len()
        invariant
            i <= v@.len(),
            texts(out@) =~= weak_texts(v@).take(i as int),
        decreases v@.len() - i,
    {
        let ghost before = out@;
        out.push(v[i].name.clone().concat(" (").concat(v[i].reason.as_str()).concat(")"));
        assert(texts(out@) =~= texts(before).push(weak_texts(v@)[i as int]));
        i = i + 1;
    }
    assert(weak_texts(v@).take(i as int) =~= weak_texts(v@));
    out
}

/// The groups as they are listed.
pub open spec fn group_texts(v: Seq<Vec<String>>) -> Seq<Seq<char>> {
    Seq::new(v.len(), |i: int| join(texts(v[i]@), ", "@))
}

fn show_groups(v: &Vec<Vec<String>>) -> (r: Vec<String>)
    ensures
        texts(r@) == group_texts(v@),
{
    let mut out: Vec<String> = Vec::new();
    let mut i: usize = 0;
    while i < v.len()
        invariant
            i <= v@.len(),
            texts(out@) =~= group_texts(v@).take(i as int),
        decreases v@.len() - i,
    {
        let ghost before = out@;
        out.push(joined(&v[i], ", "));
        assert(texts(out@) =~= texts(before).push(group_texts(v@)[i as int]));
        i = i + 1;
    }
    assert(group_texts(v@).take(i as int) =~= group_texts(v@));
    out
}

/// How many names the groups hold together.
pub open spec fn grouped(v: Seq<Vec<String>>) -> int
    decreases v.len(),
{
    if v.len() == 0 {
        0
    } else {
        grouped(v.drop_last()) + v.last()@.len()
    }
}

fn count_grouped(v: &Vec<Vec<String>>) -> (n: u128)
    ensures
        n == grouped(v@),
{
    let mut n: u128 = 0;
    let mut i: usize = 0;
    assert(v@.take(0) =~= Seq::<Vec<String>>::empty());
    while i < v.len()
        invariant
            i <= v@.len(),
            n == grouped(v@.take(i as int)),
            n <= i * (usize::MAX as int),
        decreases v@.len() - i,
    {
        assert(v@.take(i + 1).drop_last() =~= v@.take(i as int));
        assert(i * (usize::MAX as int) + usize::MAX <= u128::MAX) by (nonlinear_arith)
            requires
                i < usize::MAX,
                usize::MAX <= 0xffff_ffff_ffff_ffff,
        ;
        assert((i + 1) * (usize::MAX as int) == i * (usize::MAX as int) + usize::MAX)
            by (nonlinear_arith);
        n = n + v[i].len() as u128;
        i = i + 1;
    }
    assert(v@.take(i as int) =~= v@);
    n
}

/// The report as text.
pub open spec fn report_text(r: SecretReport) -> Seq<char> {
    "=== Secret Audit Report ===\n\nTotal secrets scanned: "@ + decimal(r.total as int)
        + "\n  By type:\n"@ + type_lines(r.by_type) + "\nWeak passwords: "@ + decimal(
        r.weak@.len() as int,
    ) + "\n"@ + bullets(weak_texts(r.weak@)) + "\nDuplicate passwords: "@ + decimal(
        grouped(r.duplicates@),
    ) + " entries in "@ + decimal(r.duplicates@.len() as int) + " groups\n"@ + bullets(
        group_texts(r.duplicates@),
    ) + "\nBreached passwords (HIBP): "@ + decimal(r.breached@.len() as int) + "\n"@ + bullets(
        texts(r.breached@),
    ) + "\nOld passwords: "@ + decimal(r.old@.len() as int) + "\n"@ + bullets(texts(r.old@))
}

/// The report as text.
pub fn print_text(r: &SecretReport) -> (s: String)
    ensures
        s@ == report_text(*r),
{
    let c = &r.by_type;
    let types = show_type_line("file", c.file).concat(
        show_type_line("mnemonic", c.mnemonic).as_str(),
    ).concat(show_type_line("note", c.note).as_str()).concat(
        show_type_line("password", c.password).as_str(),
    ).concat(show_type_line("private_key", c.private_key).as_str()).concat(
        show_type_line("totp", c.totp).as_str(),
    );
    "=== Secret Audit Report ===\n\nTotal secrets scanned: ".to_owned().concat(
        dec(r.total as u128).as_str(),
    ).concat("\n  By type:\n").concat(types.as_str()).concat("\nWeak passwords: ").concat(
        dec(r.weak.len() as u128).as_str(),
    ).concat("\n").concat(show_bullets(&show_weak(&r.weak)).as_str()).concat(
        "\nDuplicate passwords: ",
    ).concat(dec(count_grouped(&r.duplicates)).as_str()).concat(" entries in ").concat(
        dec(r.duplicates.len() as u128).as_str(),
    ).concat(" groups\n").concat(show_bullets(&show_groups(&r.duplicates)).as_str()).concat(
        "\nBreached passwords (HIBP): ",
    ).concat(dec(r.breached.len() as u128).as_str()).concat("\n").concat(
        show_bullets(&r.breached).as_str(),
    ).concat("\nOld passwords: ").concat(dec(r.old.len() as u128).as_str()).concat("\n").concat(
        show_bullets(&r.old).as_str(),
    )
}

/// Every group has at least two names, and the passwords in it share a digest:
/// a group is what one digest gathers.
pub proof fn law_groups_share_a_digest(
    names: Seq<Seq<char>>,
    digests: Seq<Seq<char>>,
    n: int,
    g: int,
)
    requires
        names.len() == digests.len(),
        0 <= n <= names.len(),
        0 <= g < groups(names, digests, n).len(),
    ensures
        groups(names, digests, n)[g].len() > 1,
        exists|i: int|
            0 <= i < n && groups(names, digests, n)[g] == names_with(
                names,
                digests,
                #[trigger] digests[i],
                names.len() as int,
            ),
    decreases n,
{
    if n > 0 {
        let rest = groups(names, digests, n - 1);
        if g < rest.len() {
            law_groups_share_a_digest(names, digests, n - 1, g);
        } else {
            assert(groups(names, digests, n)[g] == names_with(
                names,
                digests,
                digests[n - 1],
                names.len() as int,
            ));
        }
    }
}

/// An item is a password that was opened and is weak for a reason.
pub open spec fn is_weak_item(e: Audited, name: Seq<char>, reason: Seq<char>) -> bool {
    e.item_type == ItemType::Password && e.name@ == name && (e.opened matches Opened::Plain(p)
        && weakness(p@) == Some(reason))
}

/// The weak passwords are exactly the passwords that were opened and are weak,
/// each under its name.
pub proof fn law_weak_passwords_are_listed(v: Seq<Audited>, name: Seq<char>, reason: Seq<char>)
    ensures
        weak_ones(v).contains((name, reason)) <==> exists|i: int|
            0 <= i < v.len() && is_weak_item(#[trigger] v[i], name, reason),
    decreases v.len(),
{
    let x = (name, reason);
    if v.len() > 0 {
        let front = v.drop_last();
        law_weak_passwords_are_listed(front, name, reason);
        let rest = weak_ones(front);
        let all = weak_ones(v);
        assert(is_weak_item(v.last(), name, reason) ==> all.last() == x);
        if rest.contains(x) {
            let k = choose|k: int| 0 <= k < rest.len() && rest[k] == x;
            assert(all[k] == x);
        }
        if all.contains(x) {
            let k = choose|k: int| 0 <= k < all.len() && all[k] == x;
            if k < rest.len() {
                assert(rest[k] == x);
            } else {
                assert(is_weak_item(v[v.len() - 1], name, reason));
            }
        }
        if exists|i: int| 0 <= i < v.len() && is_weak_item(#[trigger] v[i], name, reason) {
            let i = choose|i: int| 0 <= i < v.len() && is_weak_item(#[trigger] v[i], name, reason);
            if i < front.len() {
                assert(is_weak_item(front[i], name, reason));
            } else {
                assert(all.last() == x);
                assert(all.contains(x));
            }
        }
        if exists|i: int| 0 <= i < front.len() && is_weak_item(#[trigger] front[i], name, reason) {
            let i = choose|i: int|
                0 <= i < front.len() && is_weak_item(#[trigger] front[i], name, reason);
            assert(is_weak_item(v[i], name, reason));
        }
    }
}

/// A password that was opened and is not strong is always reported.
pub proof fn law_no_weak_password_is_missed(v: Seq<Audited>, i: int)
    requires
        0 <= i < v.len(),
        v[i].item_type == ItemType::Password,
        v[i].opened matches Opened::Plain(p) && !is_strong(p@),
    ensures
        exists|reason: Seq<char>| #[trigger] weak_ones(v).contains((v[i].name@, reason)),
{
    let p = v[i].opened->Plain_0@;
    law_only_strong_passwords_pass(p);
    let reason = weakness(p)->0;
    assert(is_weak_item(v[i], v[i].name@, reason));
    law_weak_passwords_are_listed(v, v[i].name@, reason);
}

/// An item is a password that was opened and that the breach database knows.
pub open spec fn is_breached_item(e: Audited, name: Seq<char>) -> bool {
    e.item_type == ItemType::Password && e.opened is Plain && e.breached == Some(true) && e.name@
        == name
}

/// The breached passwords are exactly the opened ones that the breach database
/// knows.
pub proof fn law_breached_passwords_are_listed(v: Seq<Audited>, name: Seq<char>)
    ensures
        breached_names(v).contains(name) <==> exists|i: int|
            0 <= i < v.len() && is_breached_item(#[trigger] v[i], name),
    decreases v.len(),
{
    if v.len() > 0 {
        let front = v.drop_last();
        law_breached_passwords_are_listed(front, name);
        let rest = breached_names(front);
        let all = breached_names(v);
        if rest.contains(name) {
            let k = choose|k: int| 0 <= k < rest.len() && rest[k] == name;
            assert(all[k] == name);
        }
        if all.contains(name) {
            let k = choose|k: int| 0 <= k < all.len() && all[k] == name;
            if k < rest.len() {
                assert(rest[k] == name);
            } else {
                assert(is_breached_item(v[v.len() - 1], name));
            }
        }
        if exists|i: int| 0 <= i < v.len() && is_breached_item(#[trigger] v[i], name) {
            let i = choose|i: int| 0 <= i < v.len() && is_breached_item(#[trigger] v[i], name);
            if i < front.len() {
                assert(is_breached_item(front[i], name));
            } else {
                assert(all.last() == name);
                assert(all.contains(name));
            }
        }
        if exists|i: int| 0 <= i < front.len() && is_breached_item(#[trigger] front[i], name) {
            let i = choose|i: int|
                0 <= i < front.len() && is_breached_item(#[trigger] front[i], name);
            assert(is_breached_item(v[i], name));
        }
    }
}

/// An item is a password that was last changed more than `max_age` whole days
/// ago: at least a day more, counted in nanoseconds.
pub open spec fn is_old_item(e: Audited, now: int, max_age: u64, name: Seq<char>) -> bool {
    e.item_type == ItemType::Password && e.name@ == name && (timestamp_of(e.updated_at@) matches Ok(
        t,
    ) && now - t >= (max_age + 1) * 86_400_000_000_000)
}

proof fn lemma_old_in_nanos(e: Audited, now: int, max_age: u64)
    requires
        max_age <= i64::MAX,
    ensures
        is_old(e, now, max_age) <==> is_old_item(e, now, max_age, e.name@),
{
    if e.item_type == ItemType::Password && timestamp_of(e.updated_at@) is Ok {
        let d = now - timestamp_of(e.updated_at@)->Ok_0;
        let limit = max_age as int;
        assert(d >= 0 ==> (d / 86_400_000_000_000 > limit <==> d >= (limit + 1)
            * 86_400_000_000_000));
    }
}

/// The old passwords are exactly the passwords whose last change is more than
/// `max_age` whole days ago.
pub proof fn law_old_passwords_are_listed(
    v: Seq<Audited>,
    now: int,
    max_age: u64,
    name: Seq<char>,
)
    requires
        max_age <= i64::MAX,
    ensures
        old_names(v, now, max_age).contains(name) <==> exists|i: int|
            0 <= i < v.len() && is_old_item(#[trigger] v[i], now, max_age, name),
    decreases v.len(),
{
    if v.len() > 0 {
        let front = v.drop_last();
        law_old_passwords_are_listed(front, now, max_age, name);
        lemma_old_in_nanos(v.last(), now, max_age);
        let rest = old_names(front, now, max_age);
        let all = old_names(v, now, max_age);
        if rest.contains(name) {
            let k = choose|k: int| 0 <= k < rest.len() && rest[k] == name;
            assert(all[k] == name);
        }
        if all.contains(name) {
            let k = choose|k: int| 0 <= k < all.len() && all[k] == name;
            if k < rest.len() {
                assert(rest[k] == name);
            } else {
                assert(is_old_item(v[v.len() - 1], now, max_age, name));
            }
        }
        if exists|i: int| 0 <= i < v.len() && is_old_item(#[trigger] v[i], now, max_age, name) {
            let i = choose|i: int|
                0 <= i < v.len() && is_old_item(#[trigger] v[i], now, max_age, name);
            if i < front.len() {
                assert(is_old_item(front[i], now, max_age, name));
            } else {
                assert(all.last() == name);
                assert(all.contains(name));
            }
        }
        if exists|i: int|
            0 <= i < front.len() && is_old_item(#[trigger] front[i], now, max_age, name) {
            let i = choose|i: int|
                0 <= i < front.len() && is_old_item(#[trigger] front[i], now, max_age, name);
            assert(is_old_item(v[i], now, max_age, name));
        }
    }
}

/// The names with a digest are exactly those whose digest it is.
pub proof fn law_names_with_a_digest(
    names: Seq<Seq<char>>,
    digests: Seq<Seq<char>>,
    d: Seq<char>,
    n: int,
    name: Seq<char>,
)
    requires
        names.len() == digests.len(),
        0 <= n <= names.len(),
    ensures
        names_with(names, digests, d, n).contains(name) <==> exists|k: int|
            0 <= k < n && #[trigger] names[k] == name && digests[k] == d,
    decreases n,
{
    if n > 0 {
        law_names_with_a_digest(names, digests, d, n - 1, name);
        let rest = names_with(names, digests, d, n - 1);
        let all = names_with(names, digests, d, n);
        if rest.contains(name) {
            let k = choose|k: int| 0 <= k < rest.len() && rest[k] == name;
            assert(all[k] == name);
        }
        if all.contains(name) {
            let k = choose|k: int| 0 <= k < all.len() && all[k] == name;
            if k < rest.len() {
                assert(rest[k] == name);
            } else {
                assert(names[n - 1] == name && digests[n - 1] == d);
            }
        }
        if names[n - 1] == name && digests[n - 1] == d {
            assert(all.last() == name);
            assert(all.contains(name));
        }
    }
}

proof fn lemma_two_names(names: Seq<Seq<char>>, digests: Seq<Seq<char>>, d: Seq<char>, n: int,
    i: int, j: int)
    requires
        names.len() == digests.len(),
        0 <= i < j < n <= names.len(),
        digests[i] == d,
        digests[j] == d,
    ensures
        names_with(names, digests, d, n).len() > 1,
    decreases n,
{
    if j < n - 1 {
        lemma_two_names(names, digests, d, n - 1, i, j);
    } else {
        law_names_with_a_digest(names, digests, d, n - 1, names[i]);
        let rest = names_with(names, digests, d, n - 1);
        assert(rest.contains(names[i]));
    }
}

/// Two passwords with the same digest are always reported together, in one
/// group.
pub proof fn law_repeated_passwords_are_grouped(
    names: Seq<Seq<char>>,
    digests: Seq<Seq<char>>,
    n: int,
    i: int,
    j: int,
)
    requires
        names.len() == digests.len(),
        0 <= n <= names.len(),
        0 <= i < n,
        i < j < names.len(),
        digests[i] == digests[j],
    ensures
        exists|g: int|
            0 <= g < groups(names, digests, n).len() && (#[trigger] groups(
                names,
                digests,
                n,
            )[g]).contains(names[i]) && groups(names, digests, n)[g].contains(names[j]),
    decreases n,
{
    let total = names.len() as int;
    let all = groups(names, digests, n);
    let rest = groups(names, digests, n - 1);
    let d = digests[i];
    if i < n - 1 {
        law_repeated_passwords_are_grouped(names, digests, n - 1, i, j);
        let g = choose|g: int|
            0 <= g < rest.len() && (#[trigger] rest[g]).contains(names[i]) && rest[g].contains(
                names[j],
            );
        assert(all[g] == rest[g]);
    } else if digests.take(n - 1).contains(d) {
        let k = choose|k: int| 0 <= k < n - 1 && #[trigger] digests.take(n - 1)[k] == d;
        assert(digests[k] == d);
        lemma_group_of(names, digests, n - 1, k, j);
        let g = choose|g: int|
            0 <= g < rest.len() && #[trigger] rest[g] == names_with(names, digests, d, total);
        assert(all[g] == rest[g]);
        law_names_with_a_digest(names, digests, d, total, names[i]);
        law_names_with_a_digest(names, digests, d, total, names[j]);
        assert(all[g].contains(names[i]) && all[g].contains(names[j]));
    } else {
        let group = names_with(names, digests, d, total);
        lemma_two_names(names, digests, d, total, i, j);
        law_names_with_a_digest(names, digests, d, total, names[i]);
        law_names_with_a_digest(names, digests, d, total, names[j]);
        assert(all == rest.push(group));
        assert(all[rest.len() as int] == group);
    }
}

proof fn lemma_group_of(
    names: Seq<Seq<char>>,
    digests: Seq<Seq<char>>,
    n: int,
    i: int,
    j: int,
)
    requires
        names.len() == digests.len(),
        0 <= n <= names.len(),
        0 <= i < n,
        i < j < names.len(),
        digests[i] == digests[j],
    ensures
        exists|g: int|
            0 <= g < groups(names, digests, n).len() && #[trigger] groups(names, digests, n)[g]
                == names_with(names, digests, digests[i], names.len() as int),
    decreases n,
{
    let total = names.len() as int;
    let all = groups(names, digests, n);
    let rest = groups(names, digests, n - 1);
    let d = digests[i];
    let group = names_with(names, digests, d, total);
    if digests.take(n - 1).contains(d) || i < n - 1 {
        if i < n - 1 {
            lemma_group_of(names, digests, n - 1, i, j);
        } else {
            let k = choose|k: int| 0 <= k < n - 1 && #[trigger] digests.take(n - 1)[k] == d;
            assert(digests[k] == d);
            lemma_group_of(names, digests, n - 1, k, j);
        }
        let g = choose|g: int| 0 <= g < rest.len() && #[trigger] rest[g] == group;
        assert(all[g] == rest[g]);
    } else {
        lemma_two_names(names, digests, d, total, i, j);
        assert(all == rest.push(group));
        assert(all[rest.len() as int] == group);
    }
}

/// Each type is counted under its own name, and only types that occur.
pub proof fn law_types_are_counted_by_name(c: TypeCounts, n: usize)
    ensures
        present_types(c).contains(("file"@, n)) <==> n > 0 && n == c.file,
        present_types(c).contains(("mnemonic"@, n)) <==> n > 0 && n == c.mnemonic,
        present_types(c).contains(("note"@, n)) <==> n > 0 && n == c.note,
        present_types(c).contains(("password"@, n)) <==> n > 0 && n == c.password,
        present_types(c).contains(("private_key"@, n)) <==> n > 0 && n == c.private_key,
        present_types(c).contains(("totp"@, n)) <==> n > 0 && n == c.totp,
{
    reveal_strlit("file");
    reveal_strlit("mnemonic");
    reveal_strlit("note");
    reveal_strlit("password");
    reveal_strlit("private_key");
    reveal_strlit("totp");
    assert("file"@[0] == 'f' && "mnemonic"@[0] == 'm' && "note"@[0] == 'n' && "password"@[1] == 'a'
        && "private_key"@[1] == 'r' && "totp"@[0] == 't');
    assert("password"@[0] == 'p' && "private_key"@[0] == 'p');
    let a = present("file"@, c.file);
    let b = present("mnemonic"@, c.mnemonic);
    let d = present("note"@, c.note);
    let e = present("password"@, c.password);
    let f = present("private_key"@, c.private_key);
    let g = present("totp"@, c.totp);
    assert forall|x: (Seq<char>, usize)| #[trigger] present_types(c).contains(x) <==> (a.contains(x)
        || b.contains(x) || d.contains(x) || e.contains(x) || f.contains(x) || g.contains(x)) by {
        lemma_either(a, b, x);
        lemma_either(a + b, d, x);
        lemma_either(a + b + d, e, x);
        lemma_either(a + b + d + e, f, x);
        lemma_either(a + b + d + e + f, g, x);
    }
    lemma_present("file"@, c.file);
    lemma_present("mnemonic"@, c.mnemonic);
    lemma_present("note"@, c.note);
    lemma_present("password"@, c.password);
    lemma_present("private_key"@, c.private_key);
    lemma_present("totp"@, c.totp);
}

proof fn lemma_present(label: Seq<char>, n: usize)
    ensures
        forall|l: Seq<char>, k: usize|
            #[trigger] present(label, n).contains((l, k)) <==> n > 0 && l == label && k == n,
{
    if n > 0 {
        assert(present(label, n)[0] == (label, n));
    }
}

proof fn lemma_either<A>(a: Seq<A>, b: Seq<A>, x: A)
    ensures
        (a + b).contains(x) <==> a.contains(x) || b.contains(x),
{
    let s = a + b;
    if a.contains(x) {
        let i = choose|i: int| 0 <= i < a.len() && a[i] == x;
        assert(s[i] == x);
    }
    if b.contains(x) {
        let i = choose|i: int| 0 <= i < b.len() && b[i] == x;
        assert(s[a.len() + i] == x);
    }
}

/// A report counts the secrets, lists the weak, the breached and the old passwords
/// and what could not be opened, each in its own place; without the breach check
/// nothing is breached.
pub proof fn law_reports_keep_findings_apart(
    r: SecretReport,
    v: Seq<Audited>,
    now: int,
    max_age: u64,
    skip_hibp: bool,
)
    requires
        is_report(r, v, now, max_age, skip_hibp),
    ensures
        r.total == v.len(),
        r.by_type.password == count_of(v, ItemType::Password),
        r.by_type.mnemonic == count_of(v, ItemType::Mnemonic),
        r.by_type.private_key == count_of(v, ItemType::PrivateKey),
        r.by_type.totp == count_of(v, ItemType::Totp),
        r.by_type.note == count_of(v, ItemType::Note),
        r.by_type.file == count_of(v, ItemType::File),
        r.weak@.len() == weak_ones(v).len(),
        forall|i: int|
            0 <= i < r.weak@.len() ==> (#[trigger] r.weak@[i]).name@ == weak_ones(v)[i].0
                && r.weak@[i].reason@ == weak_ones(v)[i].1,
        texts(r.old@) == old_names(v, now, max_age),
        skip_hibp ==> r.breached@.len() == 0,
        !skip_hibp ==> texts(r.breached@) == breached_names(v),
        texts(r.warnings@) == warnings_of(v),
        r.duplicates@.len() == groups(opened_names(v), opened_digests(v),
            opened_names(v).len() as int).len(),
{
    assert forall|i: int| 0 <= i < r.weak@.len() implies (#[trigger] r.weak@[i]).name@
        == weak_ones(v)[i].0 && r.weak@[i].reason@ == weak_ones(v)[i].1 by {
        assert(finding_texts(r.weak@)[i] == weak_ones(v)[i]);
    }
    assert(finding_texts(r.weak@).len() == r.weak@.len());
    assert(texts(r.breached@).len() == r.breached@.len());
    assert(text_groups(r.duplicates@).len() == r.duplicates@.len());
}

/// Only passwords that open are compared, each by the digest of its bytes beside
/// its name; what does not open is warned of by name, and says whether it was
/// read or decrypted.
pub proof fn law_each_password_is_opened_once(v: Seq<Audited>, e: Audited)
    ensures
        opened_names(v).len() == opened_digests(v).len(),
        e.item_type != ItemType::Password ==> opened_names(v.push(e)) == opened_names(v)
            && opened_digests(v.push(e)) == opened_digests(v) && warnings_of(v.push(e))
            == warnings_of(v),
        e.item_type == ItemType::Password && e.opened is Unreadable ==> opened_names(v.push(e))
            == opened_names(v) && warnings_of(v.push(e)) == warnings_of(v).push(
            "audit secrets: cannot read '"@ + e.name@ + "': "@ + e.opened->Unreadable_0@,
        ),
        e.item_type == ItemType::Password && e.opened is Undecryptable ==> opened_names(v.push(e))
            == opened_names(v) && warnings_of(v.push(e)) == warnings_of(v).push(
            "audit secrets: cannot decrypt '"@ + e.name@ + "': "@ + e.opened->Undecryptable_0@,
        ),
        e.item_type == ItemType::Password && e.opened is Plain ==> warnings_of(v.push(e))
            == warnings_of(v),
        password_of(e) matches Some(p) ==> opened_names(v.push(e)) == opened_names(v).push(e.name@)
            && opened_digests(v.push(e)) == opened_digests(v).push(
            hex_text(sha256_of(vstd::utf8::encode_utf8(p))),
        ),
        opened_names(Seq::<Audited>::empty()).len() == 0,
        warnings_of(Seq::<Audited>::empty()).len() == 0,
    decreases v.len(),
{
    assert(v.push(e).drop_last() =~= v);
    if v.len() > 0 {
        law_each_password_is_opened_once(v.drop_last(), v.last());
        assert(v.drop_last().push(v.last()) =~= v);
    }
}

/// A line of breached digests names a suffix when it stands before the colon, in
/// either case.
pub proof fn law_breach_lines_name_a_suffix(head: Seq<char>, count: Seq<char>, suffix: Seq<char>)
    requires
        !head.contains(':'),
    ensures
        names_suffix(head + seq![':'] + count, suffix) <==> ascii_lower(trim(head)) == ascii_lower(
            suffix,
        ),
        !names_suffix(head, suffix),
{
    law_sides_are_cut_apart(head, ':', count);
    law_cutting_gives_both_sides(head, ':');
}

/// The text of a report gives each number behind its own heading.
pub proof fn law_reports_show_their_numbers(r: SecretReport)
    ensures
        shows(report_text(r), "Total secrets scanned: "@, decimal(r.total as int)),
        shows(report_text(r), "\nWeak passwords: "@, decimal(r.weak@.len() as int)),
        shows(report_text(r), " entries in "@, decimal(r.duplicates@.len() as int)),
        shows(report_text(r), "\nDuplicate passwords: "@, decimal(grouped(r.duplicates@))),
        shows(report_text(r), "\nBreached passwords (HIBP): "@, decimal(r.breached@.len() as int)),
        shows(report_text(r), "\nOld passwords: "@, decimal(r.old@.len() as int)),
{
    let t = report_text(r);
    let total = decimal(r.total as int);
    let types = type_lines(r.by_type);
    let n = decimal(r.weak@.len() as int);
    let weak = bullets(weak_texts(r.weak@));
    let m = decimal(grouped(r.duplicates@));
    let g = decimal(r.duplicates@.len() as int);
    let dups = bullets(group_texts(r.duplicates@));
    let x = decimal(r.breached@.len() as int);
    let breached = bullets(texts(r.breached@));
    let y = decimal(r.old@.len() as int);
    let old = bullets(texts(r.old@));
    assert(shows(t, "\nWeak passwords: "@, n)) by {
        let a = "=== Secret Audit Report ===\n\nTotal secrets scanned: "@ + total
            + "\n  By type:\n"@ + types;
        lemma_shows_last(a, "\nWeak passwords: "@, n);
        let u = a + "\nWeak passwords: "@ + n;
        lemma_shows_more4(u, "\n"@, weak, "\nDuplicate passwords: "@, m, "\nWeak passwords: "@, n);
        let u = u + "\n"@ + weak + "\nDuplicate passwords: "@ + m;
        lemma_shows_more4(u, " entries in "@, g, " groups\n"@, dups, "\nWeak passwords: "@, n);
        let u = u + " entries in "@ + g + " groups\n"@ + dups;
        lemma_shows_more4(u, "\nBreached passwords (HIBP): "@, x, "\n"@, breached,
            "\nWeak passwords: "@, n);
        let u = u + "\nBreached passwords (HIBP): "@ + x + "\n"@ + breached;
        lemma_shows_more4(u, "\nOld passwords: "@, y, "\n"@, old, "\nWeak passwords: "@, n);
    }
    assert(shows(t, "\nDuplicate passwords: "@, m)) by {
        let a = "=== Secret Audit Report ===\n\nTotal secrets scanned: "@ + total
            + "\n  By type:\n"@ + types + "\nWeak passwords: "@ + n + "\n"@ + weak;
        lemma_shows_last(a, "\nDuplicate passwords: "@, m);
        let u = a + "\nDuplicate passwords: "@ + m;
        lemma_shows_more4(u, " entries in "@, g, " groups\n"@, dups, "\nDuplicate passwords: "@, m);
        let u = u + " entries in "@ + g + " groups\n"@ + dups;
        lemma_shows_more4(u, "\nBreached passwords (HIBP): "@, x, "\n"@, breached,
            "\nDuplicate passwords: "@, m);
        let u = u + "\nBreached passwords (HIBP): "@ + x + "\n"@ + breached;
        lemma_shows_more4(u, "\nOld passwords: "@, y, "\n"@, old, "\nDuplicate passwords: "@, m);
    }
    assert(shows(t, " entries in "@, g)) by {
        let a = "=== Secret Audit Report ===\n\nTotal secrets scanned: "@ + total
            + "\n  By type:\n"@ + types + "\nWeak passwords: "@ + n + "\n"@ + weak
            + "\nDuplicate passwords: "@ + m;
        lemma_shows_last(a, " entries in "@, g);
        let u = a + " entries in "@ + g;
        lemma_shows_more4(u, " groups\n"@, dups, "\nBreached passwords (HIBP): "@, x,
            " entries in "@, g);
        let u = u + " groups\n"@ + dups + "\nBreached passwords (HIBP): "@ + x;
        lemma_shows_more4(u, "\n"@, breached, "\nOld passwords: "@, y, " entries in "@, g);
        let u = u + "\n"@ + breached + "\nOld passwords: "@ + y;
        lemma_shows_more(u, "\n"@, " entries in "@, g);
        let u = u + "\n"@;
        lemma_shows_more(u, old, " entries in "@, g);
    }
    assert(shows(t, "\nBreached passwords (HIBP): "@, x)) by {
        let a = "=== Secret Audit Report ===\n\nTotal secrets scanned: "@ + total
            + "\n  By type:\n"@ + types + "\nWeak passwords: "@ + n + "\n"@ + weak
            + "\nDuplicate passwords: "@ + m + " entries in "@ + g + " groups\n"@ + dups;
        lemma_shows_last(a, "\nBreached passwords (HIBP): "@, x);
        let u = a + "\nBreached passwords (HIBP): "@ + x;
        lemma_shows_more4(u, "\n"@, breached, "\nOld passwords: "@, y,
            "\nBreached passwords (HIBP): "@, x);
        let u = u + "\n"@ + breached + "\nOld passwords: "@ + y;
        lemma_shows_more(u, "\n"@, "\nBreached passwords (HIBP): "@, x);
        let u = u + "\n"@;
        lemma_shows_more(u, old, "\nBreached passwords (HIBP): "@, x);
    }
    assert(shows(t, "\nOld passwords: "@, y)) by {
        let a = "=== Secret Audit Report ===\n\nTotal secrets scanned: "@ + total
            + "\n  By type:\n"@ + types + "\nWeak passwords: "@ + n + "\n"@ + weak
            + "\nDuplicate passwords: "@ + m + " entries in "@ + g + " groups\n"@ + dups
            + "\nBreached passwords (HIBP): "@ + x + "\n"@ + breached;
        lemma_shows_last(a, "\nOld passwords: "@, y);
        let u = a + "\nOld passwords: "@ + y;
        lemma_shows_more(u, "\n"@, "\nOld passwords: "@, y);
        let u = u + "\n"@;
        lemma_shows_more(u, old, "\nOld passwords: "@, y);
    }
    assert(shows(t, "Total secrets scanned: "@, total)) by {
        let head = "=== Secret Audit Report ===\n\nTotal secrets scanned: "@;
        assert(head == "=== Secret Audit Report ===\n\n"@ + "Total secrets scanned: "@) by {
            reveal_strlit("=== Secret Audit Report ===\n\nTotal secrets scanned: ");
            reveal_strlit("=== Secret Audit Report ===\n\n");
            reveal_strlit("Total secrets scanned: ");
            assert(head =~= "=== Secret Audit Report ===\n\n"@ + "Total secrets scanned: "@);
        }
        lemma_shows_last("=== Secret Audit Report ===\n\n"@, "Total secrets scanned: "@, total);
        let u = head + total;
        lemma_shows_more4(u, "\n  By type:\n"@, types, "\nWeak passwords: "@, n,
            "Total secrets scanned: "@, total);
        let u = u + "\n  By type:\n"@ + types + "\nWeak passwords: "@ + n;
        lemma_shows_more4(u, "\n"@, weak, "\nDuplicate passwords: "@, m,
            "Total secrets scanned: "@, total);
        let u = u + "\n"@ + weak + "\nDuplicate passwords: "@ + m;
        lemma_shows_more4(u, " entries in "@, g, " groups\n"@, dups, "Total secrets scanned: "@, total);
        let u = u + " entries in "@ + g + " groups\n"@ + dups;
        lemma_shows_more4(u, "\nBreached passwords (HIBP): "@, x, "\n"@, breached,
            "Total secrets scanned: "@, total);
        let u = u + "\nBreached passwords (HIBP): "@ + x + "\n"@ + breached;
        lemma_shows_more4(u, "\nOld passwords: "@, y, "\n"@, old, "Total secrets scanned: "@, total);
    }
}

/// Every item of a list has a bullet of its own, in order; the entries in groups are
/// those of all groups together.
pub proof fn law_lists_have_a_bullet_each(v: Seq<Seq<char>>, s: Seq<char>, g: Seq<Vec<String>>,
    h: Vec<String>)
    ensures
        bullets(v.push(s)) == bullets(v) + "  - "@ + s + "\n"@,
        bullets(Seq::<Seq<char>>::empty()).len() == 0,
        grouped(g.push(h)) == grouped(g) + h@.len(),
        grouped(Seq::<Vec<String>>::empty()) == 0,
{
    assert(v.push(s).drop_last() =~= v);
    assert(g.push(h).drop_last() =~= g);
}

proof fn lemma_type_line(label: Seq<char>, full: Seq<char>, n: usize)
    requires
        full == "    "@ + label + ": "@,
        n > 0,
    ensures
        shows(type_line(label, n), full, decimal(n as int)),
{
    lemma_shows_first(full, decimal(n as int));
    lemma_shows_more(full + decimal(n as int), "\n"@, full, decimal(n as int));
}

/// Each type of secret has its own label, and a line exactly when there are any.
pub proof fn law_types_have_labels(c: TypeCounts, t: ItemType)
    ensures
        t is Mnemonic ==> label_of(t) == "mnemonic"@,
        t is PrivateKey ==> label_of(t) == "private_key"@,
        t is Password ==> label_of(t) == "password"@,
        t is Totp ==> label_of(t) == "totp"@,
        t is Note ==> label_of(t) == "note"@,
        t is File ==> label_of(t) == "file"@,
        c.password > 0 ==> shows(type_lines(c), "    password: "@, decimal(c.password as int)),
        c.mnemonic > 0 ==> shows(type_lines(c), "    mnemonic: "@, decimal(c.mnemonic as int)),
        c.private_key > 0 ==> shows(type_lines(c), "    private_key: "@, decimal(c.private_key as int)),
        c.totp > 0 ==> shows(type_lines(c), "    totp: "@, decimal(c.totp as int)),
        c.note > 0 ==> shows(type_lines(c), "    note: "@, decimal(c.note as int)),
        c.file > 0 ==> shows(type_lines(c), "    file: "@, decimal(c.file as int)),
        c.file == 0 && c.mnemonic == 0 && c.note == 0 && c.password == 0 && c.private_key == 0
            && c.totp == 0 ==> type_lines(c).len() == 0,
{
    let f = type_line("file"@, c.file);
    let m = type_line("mnemonic"@, c.mnemonic);
    let n = type_line("note"@, c.note);
    let p = type_line("password"@, c.password);
    let k = type_line("private_key"@, c.private_key);
    let o = type_line("totp"@, c.totp);
    let t = type_lines(c);
    if c.file > 0 {
        assert(shows(t, "    file: "@, decimal(c.file as int))) by {
            reveal_strlit("    file: ");
            reveal_strlit("file");
            reveal_strlit("    ");
            reveal_strlit(": ");
            assert("    file: "@ =~= "    "@ + "file"@ + ": "@);
            lemma_type_line("file"@, "    file: "@, c.file);
            let u = f;
            lemma_shows_more4(u, m, n, p, k, "    file: "@, decimal(c.file as int));
            let u = u + m + n + p + k;
            lemma_shows_more(u, o, "    file: "@, decimal(c.file as int));
        }
    }
    if c.mnemonic > 0 {
        assert(shows(t, "    mnemonic: "@, decimal(c.mnemonic as int))) by {
            reveal_strlit("    mnemonic: ");
            reveal_strlit("mnemonic");
            reveal_strlit("    ");
            reveal_strlit(": ");
            assert("    mnemonic: "@ =~= "    "@ + "mnemonic"@ + ": "@);
            lemma_type_line("mnemonic"@, "    mnemonic: "@, c.mnemonic);
            let a = f;
            lemma_shows_behind(a, m, "    mnemonic: "@, decimal(c.mnemonic as int));
            let u = a + m;
            lemma_shows_more4(u, n, p, k, o, "    mnemonic: "@, decimal(c.mnemonic as int));
        }
    }
    if c.note > 0 {
        assert(shows(t, "    note: "@, decimal(c.note as int))) by {
            reveal_strlit("    note: ");
            reveal_strlit("note");
            reveal_strlit("    ");
            reveal_strlit(": ");
            assert("    note: "@ =~= "    "@ + "note"@ + ": "@);
            lemma_type_line("note"@, "    note: "@, c.note);
            let a = f + m;
            lemma_shows_behind(a, n, "    note: "@, decimal(c.note as int));
            let u = a + n;
            lemma_shows_more(u, p, "    note: "@, decimal(c.note as int));
            let u = u + p;
            lemma_shows_more(u, k, "    note: "@, decimal(c.note as int));
            let u = u + k;
            lemma_shows_more(u, o, "    note: "@, decimal(c.note as int));
        }
    }
    if c.password > 0 {
        assert(shows(t, "    password: "@, decimal(c.password as int))) by {
            reveal_strlit("    password: ");
            reveal_strlit("password");
            reveal_strlit("    ");
            reveal_strlit(": ");
            assert("    password: "@ =~= "    "@ + "password"@ + ": "@);
            lemma_type_line("password"@, "    password: "@, c.password);
            let a = f + m + n;
            lemma_shows_behind(a, p, "    password: "@, decimal(c.password as int));
            let u = a + p;
            lemma_shows_more(u, k, "    password: "@, decimal(c.password as int));
            let u = u + k;
            lemma_shows_more(u, o, "    password: "@, decimal(c.password as int));
        }
    }
    if c.private_key > 0 {
        assert(shows(t, "    private_key: "@, decimal(c.private_key as int))) by {
            reveal_strlit("    private_key: ");
            reveal_strlit("private_key");
            reveal_strlit("    ");
            reveal_strlit(": ");
            assert("    private_key: "@ =~= "    "@ + "private_key"@ + ": "@);
            lemma_type_line("private_key"@, "    private_key: "@, c.private_key);
            let a = f + m + n + p;
            lemma_shows_behind(a, k, "    private_key: "@, decimal(c.private_key as int));
            let u = a + k;
            lemma_shows_more(u, o, "    private_key: "@, decimal(c.private_key as int));
        }
    }
    if c.totp > 0 {
        assert(shows(t, "    totp: "@, decimal(c.totp as int))) by {
            reveal_strlit("    totp: ");
            reveal_strlit("totp");
            reveal_strlit("    ");
            reveal_strlit(": ");
            assert("    totp: "@ =~= "    "@ + "totp"@ + ": "@);
            lemma_type_line("totp"@, "    totp: "@, c.totp);
            let a = f + m + n + p + k;
            lemma_shows_behind(a, o, "    totp: "@, decimal(c.totp as int));
            let u = a + o;
        }
    }
}

} // verus!
