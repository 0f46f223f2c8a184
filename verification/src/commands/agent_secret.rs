//! `agent-secret`: secrets for agents that hold an API token.
//!
//! The permissions of the token's key are checked before any secret is
//! touched.
use vstd::prelude::*;

use crate::commands::{first_set, passphrase_vars, peek_passphrase, text_result};
use crate::environment::Environment;
use crate::error::{invalid, invalid_args, CliError, CliErrorView};
use crate::json::{
    empty_object, json_members, json_of, json_pretty, pretty, setting_value, with_member, Setting,
    SettingView,
};
use crate::text::{chars_of, texts};

verus! {

/// The whole of `n` matches the pattern `p`, in which `*` stands for any
/// characters and every other character for itself.
pub open spec fn glob(p: Seq<char>, n: Seq<char>) -> bool
    decreases p.len() + n.len(),
{
    if p.len() == 0 {
        n.len() == 0
    } else if p[0] == '*' {
        glob(p.skip(1), n) || (n.len() > 0 && glob(p, n.skip(1)))
    } else {
        n.len() > 0 && p[0] == n[0] && glob(p.skip(1), n.skip(1))
    }
}

/// Whether `n[j..]` matches `p[i..]`.
pub fn glob_inner(p: &Vec<char>, i: usize, n: &Vec<char>, j: usize) -> (r: bool)
    requires
        i <= p@.len(),
        j <= n@.len(),
    ensures
        r == glob(p@.skip(i as int), n@.skip(j as int)),
    decreases p@.len() - i,
{
    let ghost ps = p@.skip(i as int);
    let ghost ns = n@.skip(j as int);
    if i == p.len() {
        return j == n.len();
    }
    let next: usize = i + 1;
    assert(ps.skip(1) =~= p@.skip(next as int));
    if p[i] == '*' {
        if next == p.len() {
            proof {
                assert(ps =~= seq!['*']);
                law_star_matches_everything(ns);
            }
            return true;
        }
        let mut k: usize = j;
        assert(ns.skip(0) =~= ns);
        loop
            invariant
                j <= k <= n@.len(),
                next <= p@.len(),
                next == i + 1,
                ps == p@.skip(i as int),
                ns == n@.skip(j as int),
                ps.len() > 0,
                ps.skip(1) == p@.skip(next as int),
                ps[0] == '*',
                glob(ps, ns) == glob(ps, ns.skip(k - j)),
            decreases n@.len() - k,
        {
            assert(ns.skip(k - j) =~= n@.skip(k as int));
            if glob_inner(p, next, n, k) {
                return true;
            }
            if k == n.len() {
                return false;
            }
            assert(ns.skip(k - j).skip(1) =~= ns.skip(k + 1 - j));
            k = k + 1;
        }
    } else if j == n.len() {
        false
    } else if p[i] == n[j] {
        assert(ns.skip(1) =~= n@.skip(j + 1));
        glob_inner(p, next, n, j + 1)
    } else {
        false
    }
}

/// Whether the whole of `name` matches `pattern`.
pub fn glob_match(pattern: &str, name: &str) -> (r: bool)
    ensures
        r == glob(pattern@, name@),
{
    let p = chars_of(pattern);
    let n = chars_of(name);
    assert(p@.skip(0) =~= p@);
    assert(n@.skip(0) =~= n@);
    glob_inner(&p, 0, &n, 0)
}

/// The pattern `*` matches everything.
pub proof fn law_star_matches_everything(n: Seq<char>)
    ensures
        glob(seq!['*'], n),
    decreases n.len(),
{
    let p = seq!['*'];
    assert(p.skip(1).len() == 0);
    if n.len() == 0 {
        assert(glob(p.skip(1), n));
    } else {
        law_star_matches_everything(n.skip(1));
    }
}

/// A leading `*` stands for any beginning: some rest of the name matches the
/// rest of the pattern.
pub proof fn law_star_stands_for_any_text(p: Seq<char>, n: Seq<char>)
    ensures
        glob(seq!['*'] + p, n) <==> rest_matches(p, n),
    decreases n.len(),
{
    let g = seq!['*'] + p;
    assert(g.skip(1) =~= p);
    assert(n.skip(0) =~= n);
    if n.len() > 0 {
        law_star_stands_for_any_text(p, n.skip(1));
        if rest_matches(p, n) {
            let k = choose|k: int| 0 <= k <= n.len() && glob(p, #[trigger] n.skip(k));
            if k > 0 {
                assert(n.skip(1).skip(k - 1) =~= n.skip(k));
                assert(rest_matches(p, n.skip(1)));
            }
        }
        if rest_matches(p, n.skip(1)) {
            let m = n.skip(1);
            let k = choose|k: int| 0 <= k <= m.len() && glob(p, #[trigger] m.skip(k));
            assert(m.skip(k) =~= n.skip(k + 1));
        }
        if glob(p, n) {
            assert(glob(p, n.skip(0)));
        }
    } else {
        if rest_matches(p, n) {
            let k = choose|k: int| 0 <= k <= n.len() && glob(p, #[trigger] n.skip(k));
            assert(n.skip(k) =~= n);
        }
        if glob(p, n) {
            assert(glob(p, n.skip(0)));
        }
    }
}

/// Some rest of `n` matches `p`.
pub open spec fn rest_matches(p: Seq<char>, n: Seq<char>) -> bool {
    exists|k: int| 0 <= k <= n.len() && glob(p, #[trigger] n.skip(k))
}

/// A pattern without `*` matches itself and nothing else.
pub proof fn law_plain_pattern_matches_itself(p: Seq<char>, n: Seq<char>)
    requires
        !p.contains('*'),
    ensures
        glob(p, n) <==> p == n,
    decreases p.len(),
{
    if p.len() == 0 {
        assert(n.len() == 0 ==> p =~= n);
    } else {
        assert(p[0] != '*');
        let q = p.skip(1);
        if q.contains('*') {
            let k = choose|k: int| 0 <= k < q.len() && q[k] == '*';
            assert(p[k + 1] == '*');
        }
        if n.len() > 0 {
            law_plain_pattern_matches_itself(q, n.skip(1));
            if p[0] == n[0] && q == n.skip(1) {
                assert(p =~= seq![p[0]] + q);
                assert(n =~= seq![n[0]] + n.skip(1));
            }
        }
    }
}

/// A plain prefix followed by `*` matches what begins with the prefix.
pub proof fn law_trailing_star_matches_prefix(p: Seq<char>, n: Seq<char>)
    requires
        !p.contains('*'),
    ensures
        glob(p.push('*'), n) <==> p.is_prefix_of(n),
    decreases p.len(),
{
    let g = p.push('*');
    if p.len() == 0 {
        assert(g =~= seq!['*']);
        law_star_matches_everything(n);
        assert(p =~= n.subrange(0, 0));
    } else {
        assert(p[0] != '*');
        let q = p.skip(1);
        if q.contains('*') {
            let k = choose|k: int| 0 <= k < q.len() && q[k] == '*';
            assert(p[k + 1] == '*');
        }
        assert(g.skip(1) =~= q.push('*'));
        if n.len() > 0 {
            law_trailing_star_matches_prefix(q, n.skip(1));
            if p.is_prefix_of(n) {
                assert(q =~= n.skip(1).subrange(0, q.len() as int)) by {
                    assert forall|i: int| 0 <= i < q.len() implies q[i] == n.skip(1)[i] by {
                        assert(p[i + 1] == n.subrange(0, p.len() as int)[i + 1]);
                    }
                }
                assert(p[0] == n.subrange(0, p.len() as int)[0]);
            }
            if p[0] == n[0] && q.is_prefix_of(n.skip(1)) {
                assert forall|i: int| 0 <= i < p.len() implies p[i] == n[i] by {
                    if i > 0 {
                        assert(q[i - 1] == n.skip(1).subrange(0, q.len() as int)[i - 1]);
                    }
                }
                assert(p =~= n.subrange(0, p.len() as int));
            }
        }
    }
}

/// What an API key may do with secrets.
#[derive(Debug)]
pub struct SecretPermissions {
    pub read_patterns: Vec<String>,
    pub allow_totp: bool,
}

impl Default for SecretPermissions {
    /// Nothing is allowed.
    fn default() -> (r: Self)
        ensures
            r.read_patterns@.len() == 0,
            !r.allow_totp,
    {
        SecretPermissions { read_patterns: Vec::new(), allow_totp: false }
    }
}

/// Some pattern matches the name.
pub open spec fn may_read(patterns: Seq<Seq<char>>, name: Seq<char>) -> bool {
    exists|i: int| 0 <= i < patterns.len() && glob(#[trigger] patterns[i], name)
}

/// The error for a secret that no pattern matches.
pub open spec fn read_denied(name: Seq<char>) -> CliErrorView {
    CliErrorView::InvalidArgs(
        "access denied: secret '"@ + name
            + "' does not match any read pattern in the API key's secret_permissions"@,
    )
}

/// A secret may be read when some pattern matches its name.
pub fn check_read_permission(perms: &SecretPermissions, name: &str) -> (r: Result<(), CliError>)
    ensures
        match r {
            Ok(_) => may_read(texts(perms.read_patterns@), name@),
            Err(e) => !may_read(texts(perms.read_patterns@), name@) && e@ == read_denied(name@),
        },
{
    let patterns = &perms.read_patterns;
    let mut i: usize = 0;
    while i < patterns.len()
        invariant
            i <= patterns@.len(),
            patterns@ == perms.read_patterns@,
            forall|k: int| 0 <= k < i ==> !glob(#[trigger] texts(patterns@)[k], name@),
        decreases patterns@.len() - i,
    {
        if glob_match(patterns[i].as_str(), name) {
            assert(glob(texts(patterns@)[i as int], name@));
            return Ok(());
        }
        i = i + 1;
    }
    Err(
        invalid_args(
            "access denied: secret '".to_owned().concat(name).concat(
                "' does not match any read pattern in the API key's secret_permissions",
            ),
        ),
    )
}

/// The API token: the passphrase of the environment.
pub fn read_api_token(env: &Environment) -> (r: Result<String, CliError>)
    ensures
        text_result(r) == match first_set(env@, passphrase_vars(), 0) {
            Some(t) => Ok(t),
            None => Err(
                CliErrorView::InvalidArgs(
                    "no API token — set ONECIPHER_PASSPHRASE to an oc_key_... token"@,
                ),
            ),
        },
{
    match peek_passphrase(env) {
        Some(t) => Ok(t),
        None => Err(invalid("no API token — set ONECIPHER_PASSPHRASE to an oc_key_... token")),
    }
}

/// Listing needs at least one read pattern.
pub fn agent_secret_list(perms: &SecretPermissions) -> (r: Result<(), CliError>)
    ensures
        match r {
            Ok(_) => perms.read_patterns@.len() > 0,
            Err(e) => perms.read_patterns@.len() == 0 && e@ == CliErrorView::InvalidArgs(
                "access denied: API key has no read patterns in secret_permissions"@,
            ),
        },
{
    if perms.read_patterns.len() == 0 {
        return Err(invalid("access denied: API key has no read patterns in secret_permissions"));
    }
    Ok(())
}

/// A code needs the permission for codes, and then the permission to read.
pub fn agent_totp_generate(perms: &SecretPermissions, name: &str) -> (r: Result<(), CliError>)
    ensures
        match r {
            Ok(_) => perms.allow_totp && may_read(texts(perms.read_patterns@), name@),
            Err(e) => if !perms.allow_totp {
                e@ == CliErrorView::InvalidArgs(
                    "access denied: TOTP generation is not allowed for this API key"@,
                )
            } else {
                !may_read(texts(perms.read_patterns@), name@) && e@ == read_denied(name@)
            },
        },
{
    if !perms.allow_totp {
        return Err(invalid("access denied: TOTP generation is not allowed for this API key"));
    }
    check_read_permission(perms, name)
}

/// What an agent did with secrets, as the log keeps it.
#[derive(Debug)]
pub enum Access {
    /// It read a secret of some type.
    Read { name: String, item_type: String },
    /// It listed so many secrets.
    List { count: u64 },
    /// It made a one-time code from a secret.
    Totp { name: String },
}

/// The members of the log entry on an access.
pub open spec fn access_members(a: Access) -> Map<Seq<char>, serde_json::Value> {
    match a {
        Access::Read { name, item_type } => Map::<Seq<char>, serde_json::Value>::empty().insert(
            "name"@,
            json_of(SettingView::Text(name@)),
        ).insert("item_type"@, json_of(SettingView::Text(item_type@))),
        Access::List { count } => Map::<Seq<char>, serde_json::Value>::empty().insert(
            "action"@,
            json_of(SettingView::Text("list"@)),
        ).insert("count"@, json_of(SettingView::Number(count))),
        Access::Totp { name } => Map::<Seq<char>, serde_json::Value>::empty().insert(
            "action"@,
            json_of(SettingView::Text("totp_generate"@)),
        ).insert("name"@, json_of(SettingView::Text(name@))),
    }
}

/// The log entry on an access.
pub fn audit_payload(a: &Access) -> (r: serde_json::Value)
    ensures
        json_members(r) == Some(access_members(*a)),
{
    match a {
        Access::Read { name, item_type } => {
            let doc = with_member(
                empty_object(),
                "name",
                setting_value(Setting::Text(name.clone())),
            );
            with_member(doc, "item_type", setting_value(Setting::Text(item_type.clone())))
        },
        Access::List { count } => {
            let doc = with_member(
                empty_object(),
                "action",
                setting_value(Setting::Text("list".to_owned())),
            );
            with_member(doc, "count", setting_value(Setting::Number(*count)))
        },
        Access::Totp { name } => {
            let doc = with_member(
                empty_object(),
                "action",
                setting_value(Setting::Text("totp_generate".to_owned())),
            );
            with_member(doc, "name", setting_value(Setting::Text(name.clone())))
        },
    }
}

/// The members of the document that shows a secret.
pub open spec fn secret_members(
    name: Seq<char>,
    item_type: Seq<char>,
    secret: Seq<char>,
) -> Map<Seq<char>, serde_json::Value> {
    Map::<Seq<char>, serde_json::Value>::empty().insert(
        "name"@,
        json_of(SettingView::Text(name)),
    ).insert("item_type"@, json_of(SettingView::Text(item_type))).insert(
        "secret"@,
        json_of(SettingView::Text(secret)),
    )
}

/// `text` is the indented form of the document with these members.
pub open spec fn shows_document(
    text: Seq<char>,
    members: Map<Seq<char>, serde_json::Value>,
) -> bool {
    exists|v: serde_json::Value|
        json_members(v) == Some(members) && text == #[trigger] json_pretty(v)
}

/// What `agent-secret get` prints, once [`check_read_permission`] let the name
/// pass: the secret alone, or in JSON mode a document that names it.
pub fn agent_secret_get(name: &str, item_type: &str, secret: &str, json: bool) -> (r: String)
    ensures
        !json ==> r@ == secret@,
        json ==> shows_document(r@, secret_members(name@, item_type@, secret@)),
{
    if !json {
        return secret.to_owned();
    }
    let doc = with_member(empty_object(), "name", setting_value(Setting::Text(name.to_owned())));
    let doc = with_member(doc, "item_type", setting_value(Setting::Text(item_type.to_owned())));
    let doc = with_member(doc, "secret", setting_value(Setting::Text(secret.to_owned())));
    pretty(&doc)
}

/// A secret as an agent lists it.
#[derive(Debug)]
pub struct Summary {
    pub name: String,
    pub item_type: String,
    pub updated_at: String,
}

/// The lines of a listing.
pub open spec fn summary_lines(v: Seq<Summary>) -> Seq<Seq<char>> {
    if v.len() == 0 {
        seq!["No secrets found."@]
    } else {
        Seq::new(
            v.len(),
            |i: int| v[i].name@ + "\t"@ + v[i].item_type@ + "\t"@ + v[i].updated_at@,
        )
    }
}

/// The lines of a listing.
pub fn list_lines(v: &Vec<Summary>) -> (r: Vec<String>)
    ensures
        texts(r@) == summary_lines(v@),
{
    let mut out: Vec<String> = Vec::new();
    if v.len() == 0 {
        out.push("No secrets found.".to_owned());
        assert(texts(out@) =~= summary_lines(v@));
        return out;
    }
    let ghost want = summary_lines(v@);
    let mut i: usize = 0;
    while i < v.len()
        invariant
            i <= v@.len(),
            v@.len() > 0,
            want == summary_lines(v@),
            texts(out@) =~= want.take(i as int),
        decreases v@.len() - i,
    {
        let ghost before = out@;
        let line = v[i].name.clone().concat("\t").concat(v[i].item_type.as_str()).concat(
            "\t",
        ).concat(v[i].updated_at.as_str());
        assert(line@ == want[i as int]);
        out.push(line);
        assert(texts(out@) =~= texts(before).push(line@));
        i = i + 1;
    }
    assert(want.take(i as int) =~= want);
    out
}

/// A key without patterns reads nothing.
pub proof fn law_no_patterns_denies_all(name: Seq<char>)
    ensures
        !may_read(Seq::empty(), name),
{
}

/// More patterns never allow less; a lone star allows everything, and a name
/// without stars allows itself and nothing else.
pub proof fn law_patterns_only_add_permissions(
    patterns: Seq<Seq<char>>,
    p: Seq<char>,
    name: Seq<char>,
)
    ensures
        may_read(patterns, name) ==> may_read(patterns.push(p), name),
        may_read(patterns.push(p), name) ==> may_read(patterns, name) || glob(p, name),
        glob(p, name) ==> may_read(patterns.push(p), name),
        may_read(seq![seq!['*']], name),
        !p.contains('*') ==> (may_read(seq![p], name) <==> p == name),
{
    let all = patterns.push(p);
    if may_read(patterns, name) {
        let i = choose|i: int| 0 <= i < patterns.len() && glob(#[trigger] patterns[i], name);
        assert(glob(all[i], name));
    }
    if may_read(all, name) {
        let i = choose|i: int| 0 <= i < all.len() && glob(#[trigger] all[i], name);
        if i < patterns.len() {
            assert(glob(patterns[i], name));
        }
    }
    if glob(p, name) {
        assert(glob(all[patterns.len() as int], name));
    }
    law_star_matches_everything(name);
    let star = seq![seq!['*']];
    assert(glob(star[0], name));
    if !p.contains('*') {
        law_plain_pattern_matches_itself(p, name);
        let one = seq![p];
        if p == name {
            assert(glob(one[0], name));
        }
    }
}

/// What is logged of an access names what was accessed; a secret that is shown
/// as JSON stands under its own name.
pub proof fn law_access_is_logged_by_name(
    name: String,
    item_type: String,
    count: u64,
    secret: Seq<char>,
)
    ensures
        access_members(Access::Read { name, item_type }).dom() == set!["name"@, "item_type"@],
        access_members(Access::Read { name, item_type })["name"@] == json_of(
            SettingView::Text(name@),
        ),
        access_members(Access::Read { name, item_type })["item_type"@] == json_of(
            SettingView::Text(item_type@),
        ),
        access_members(Access::List { count })["count"@] == json_of(SettingView::Number(count)),
        access_members(Access::List { count })["action"@] == json_of(SettingView::Text("list"@)),
        access_members(Access::Totp { name })["name"@] == json_of(SettingView::Text(name@)),
        access_members(Access::Totp { name })["action"@] == json_of(
            SettingView::Text("totp_generate"@),
        ),
        secret_members(name@, item_type@, secret)["secret"@] == json_of(SettingView::Text(secret)),
        secret_members(name@, item_type@, secret)["name"@] == json_of(SettingView::Text(name@)),
        secret_members(name@, item_type@, secret)["item_type"@] == json_of(
            SettingView::Text(item_type@),
        ),
        forall|k: Seq<char>|
            #[trigger] access_members(Access::Read { name, item_type }).contains_key(k) ==> k
                != "secret"@,
{
    reveal_strlit("name");
    reveal_strlit("item_type");
    reveal_strlit("count");
    reveal_strlit("action");
    reveal_strlit("secret");
    assert("name"@.len() == 4 && "name"@[0] == 'n' && "item_type"@.len() == 9
        && "item_type"@[0] == 'i' && "count"@.len() == 5 && "count"@[0] == 'c'
        && "action"@.len() == 6 && "action"@[0] == 'a' && "secret"@.len() == 6
        && "secret"@[0] == 's');
    assert(access_members(Access::Read { name, item_type }).dom() =~= set![
        "name"@,
        "item_type"@,
    ]);
}

/// Every secret has a line with its name, its type and the time of its last
/// change, in this order; that there are none is said.
pub proof fn law_summaries_are_lines(v: Seq<Summary>, i: int)
    ensures
        v.len() == 0 ==> summary_lines(v) == seq!["No secrets found."@],
        0 <= i < v.len() ==> summary_lines(v).len() == v.len() && summary_lines(v)[i] == v[i].name@
            + "\t"@ + v[i].item_type@ + "\t"@ + v[i].updated_at@,
{
}

/// A refusal to read names the secret, and is the caller's fault.
pub proof fn law_refusals_name_the_secret(name: Seq<char>)
    ensures
        read_denied(name) matches CliErrorView::InvalidArgs(m) && m
            == "access denied: secret '"@ + name
            + "' does not match any read pattern in the API key's secret_permissions"@,
{
}

} // verus!
