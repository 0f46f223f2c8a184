//! `totp`: one-time codes whose seeds are kept in the secret store.
use vstd::prelude::*;

use crate::commands::secret::{Disclosure, DisclosureView};
use crate::commands::{no_metadata, MetadataView, SecretMetadata};
use crate::error::{invalid, CliError, CliErrorView};
use crate::json::{
    empty_object, is_null, is_object, json_is_null, json_members, json_of, setting_value, with_member,
    Setting, SettingView,
};
use crate::text::{clone_opt, opt_text};

verus! {

/// The seed of a new item.
#[derive(Debug)]
pub enum Seed {
    /// The whole `otpauth://` address.
    Uri(String),
    /// The parts that the address is built from.
    Parts { secret: String, issuer: String, account: String },
}

/// [`Seed`] with its texts as sequences of characters.
pub enum SeedView {
    Uri(Seq<char>),
    Parts { secret: Seq<char>, issuer: Seq<char>, account: Seq<char> },
}

impl View for Seed {
    type V = SeedView;

    open spec fn view(&self) -> SeedView {
        match *self {
            Seed::Uri(s) => SeedView::Uri(s@),
            Seed::Parts { secret, issuer, account } => SeedView::Parts {
                secret: secret@,
                issuer: issuer@,
                account: account@,
            },
        }
    }
}

/// The seed that the arguments give. The address goes before its parts, of
/// which none may be absent.
pub open spec fn seed_of(
    otpauth: Option<Seq<char>>,
    secret: Option<Seq<char>>,
    issuer: Option<Seq<char>>,
    account: Option<Seq<char>>,
) -> Result<SeedView, CliErrorView> {
    match (otpauth, secret, issuer, account) {
        (Some(uri), _, _, _) => Ok(SeedView::Uri(uri)),
        (None, None, _, _) => Err(
            CliErrorView::InvalidArgs("either --otpauth or --secret is required"@),
        ),
        (None, Some(_), None, _) => Err(
            CliErrorView::InvalidArgs("--issuer is required when using --secret"@),
        ),
        (None, Some(_), Some(_), None) => Err(
            CliErrorView::InvalidArgs("--account is required when using --secret"@),
        ),
        (None, Some(secret), Some(issuer), Some(account)) => Ok(
            SeedView::Parts { secret, issuer, account },
        ),
    }
}

/// The seed that the arguments of `totp add` give.
pub fn add_seed(
    otpauth: &Option<String>,
    secret: &Option<String>,
    issuer: &Option<String>,
    account: &Option<String>,
) -> (r: Result<Seed, CliError>)
    ensures
        match r {
            Ok(s) => seed_of(
                opt_text(*otpauth),
                opt_text(*secret),
                opt_text(*issuer),
                opt_text(*account),
            ) == Ok::<SeedView, CliErrorView>(s@),
            Err(e) => seed_of(
                opt_text(*otpauth),
                opt_text(*secret),
                opt_text(*issuer),
                opt_text(*account),
            ) == Err::<SeedView, CliErrorView>(e@),
        },
{
    if let Some(uri) = otpauth {
        return Ok(Seed::Uri(uri.clone()));
    }
    match secret {
        None => Err(invalid("either --otpauth or --secret is required")),
        Some(secret) => match issuer {
            None => Err(invalid("--issuer is required when using --secret")),
            Some(issuer) => match account {
                None => Err(invalid("--account is required when using --secret")),
                Some(account) => Ok(
                    Seed::Parts {
                        secret: secret.clone(),
                        issuer: issuer.clone(),
                        account: account.clone(),
                    },
                ),
            },
        },
    }
}

/// The metadata of a new item. Of an address, `issuer` and `account` are what
/// it says; of parts, they are the parts.
pub fn add_metadata(seed: &Seed, issuer: &Option<String>, account: &Option<String>) -> (m:
    SecretMetadata)
    ensures
        m@ == match seed@ {
            SeedView::Uri(_) => MetadataView {
                issuer: opt_text(*issuer),
                account: opt_text(*account),
                ..no_metadata()
            },
            SeedView::Parts { secret, issuer, account } => MetadataView {
                issuer: Some(issuer),
                account: Some(account),
                ..no_metadata()
            },
        },
{
    let none = SecretMetadata::default();
    let (issuer, account): (Option<String>, Option<String>) = match seed {
        Seed::Uri(_) => (clone_opt(issuer), clone_opt(account)),
        Seed::Parts { secret, issuer, account } => (Some(issuer.clone()), Some(account.clone())),
    };
    SecretMetadata {
        url: none.url,
        username: none.username,
        chain: none.chain,
        issuer,
        account,
        tags: none.tags,
    }
}

/// What is printed when an item was added.
pub fn added_message(name: &str) -> (r: String)
    ensures
        r@ == "TOTP added: "@ + name@,
{
    "TOTP added: ".to_owned().concat(name)
}

/// A document that is a text.
pub open spec fn json_text(s: Seq<char>) -> serde_json::Value {
    json_of(SettingView::Text(s))
}

/// The members of the document that a code is shown in.
pub open spec fn code_members(
    name: Seq<char>,
    kind: Seq<char>,
    item_type: Seq<char>,
    counter: Option<u64>,
    code: Seq<char>,
) -> Map<Seq<char>, serde_json::Value> {
    let base = Map::<Seq<char>, serde_json::Value>::empty().insert(
        "name"@,
        json_text(name),
    ).insert("kind"@, json_text(kind)).insert("item_type"@, json_text(item_type)).insert(
        "code"@,
        json_text(code),
    );
    match counter {
        Some(n) => base.insert("counter"@, json_of(SettingView::Number(n))),
        None => base,
    }
}

/// The document that a code is shown in; a counter belongs to an HOTP code.
pub fn code_document(
    name: &str,
    kind: &str,
    item_type: &str,
    counter: Option<u64>,
    code: &str,
) -> (r: serde_json::Value)
    ensures
        json_members(r) == Some(code_members(name@, kind@, item_type@, counter, code@)),
{
    let doc = empty_object();
    let doc = with_member(doc, "name", setting_value(Setting::Text(name.to_owned())));
    let doc = with_member(doc, "kind", setting_value(Setting::Text(kind.to_owned())));
    let doc = with_member(doc, "item_type", setting_value(Setting::Text(item_type.to_owned())));
    let doc = with_member(doc, "code", setting_value(Setting::Text(code.to_owned())));
    match counter {
        Some(n) => with_member(doc, "counter", setting_value(Setting::Number(n))),
        None => doc,
    }
}

/// What `totp generate` does with a code when JSON was not asked for.
pub fn generate(code: &str, qr: bool) -> (d: Disclosure)
    ensures
        d@ == if qr {
            DisclosureView::Qr(code@)
        } else {
            DisclosureView::Print(code@ + "\n"@)
        },
{
    if qr {
        Disclosure::Qr(code.to_owned())
    } else {
        Disclosure::Print(code.to_owned().concat("\n"))
    }
}

/// What `totp uris` does with an item whose secret is `uri`.
pub fn uris(uri: &str, json: bool) -> (d: Disclosure)
    ensures
        d@ == if json {
            DisclosureView::Envelope
        } else {
            DisclosureView::Print(uri@ + "\n"@)
        },
{
    if json {
        Disclosure::Envelope
    } else {
        Disclosure::Print(uri.to_owned().concat("\n"))
    }
}

/// The members that the next counter is added to: none yet, for an item that
/// has no extra data or `null`; none at all for extra data of another form.
pub open spec fn counter_base(extra: Option<serde_json::Value>) -> Option<
    Map<Seq<char>, serde_json::Value>,
> {
    match extra {
        None => Some(Map::empty()),
        Some(v) => if json_is_null(v) {
            Some(Map::empty())
        } else {
            json_members(v)
        },
    }
}

/// The extra data after an HOTP code was used: the counter behind the used one
/// is remembered, and nothing else changes. There is none where the extra data
/// is no object, or where no counter follows.
pub fn hotp_extra(extra: Option<serde_json::Value>, counter: u64) -> (r: Option<serde_json::Value>)
    ensures
        r is Some <==> counter_base(extra) is Some && counter < u64::MAX,
        r matches Some(v) ==> json_members(v) == Some(
            counter_base(extra)->0.insert(
                "hotp_counter"@,
                json_of(SettingView::Number((counter + 1) as u64)),
            ),
        ),
{
    if counter == u64::MAX {
        return None;
    }
    let base = match extra {
        None => empty_object(),
        Some(v) => {
            if is_null(&v) {
                empty_object()
            } else {
                v
            }
        },
    };
    if !is_object(&base) {
        return None;
    }
    Some(with_member(base, "hotp_counter", setting_value(Setting::Number(counter + 1))))
}

/// A seed is a whole address, or a secret with its issuer and account; nothing
/// less is accepted, and the parts keep their places.
pub proof fn law_seeds_are_complete(
    otpauth: Option<Seq<char>>,
    secret: Option<Seq<char>>,
    issuer: Option<Seq<char>>,
    account: Option<Seq<char>>,
)
    ensures
        seed_of(otpauth, secret, issuer, account) is Ok <==> otpauth is Some || (secret is Some
            && issuer is Some && account is Some),
        seed_of(otpauth, secret, issuer, account) matches Ok(SeedView::Uri(u)) ==> otpauth == Some(
            u,
        ),
        otpauth is Some ==> seed_of(otpauth, secret, issuer, account)->Ok_0 is Uri,
        otpauth is None ==> (seed_of(otpauth, secret, issuer, account) matches Ok(
            SeedView::Parts { secret: s, issuer: i, account: a },
        ) ==> secret == Some(s) && issuer == Some(i) && account == Some(a)),
{
}

/// The document of a code shows each value under its own name, and the counter
/// only where there is one.
pub proof fn law_code_documents_show_each_value(
    name: Seq<char>,
    kind: Seq<char>,
    item_type: Seq<char>,
    counter: Option<u64>,
    code: Seq<char>,
)
    ensures
        ({
            let m = code_members(name, kind, item_type, counter, code);
            &&& m["name"@] == json_text(name)
            &&& m["kind"@] == json_text(kind)
            &&& m["item_type"@] == json_text(item_type)
            &&& m["code"@] == json_text(code)
            &&& m.contains_key("counter"@) <==> counter is Some
            &&& counter matches Some(n) ==> m["counter"@] == json_of(SettingView::Number(n))
        }),
{
    reveal_strlit("name");
    reveal_strlit("kind");
    reveal_strlit("item_type");
    reveal_strlit("code");
    reveal_strlit("counter");
    assert("name"@.len() == 4 && "name"@[0] == 'n' && "kind"@.len() == 4 && "kind"@[0] == 'k'
        && "item_type"@.len() == 9 && "item_type"@[0] == 'i' && "code"@.len() == 4
        && "code"@[0] == 'c' && "counter"@.len() == 7 && "counter"@[0] == 'c');
}

/// A counter is stored with what was stored beside it; `null` counts as
/// nothing, and what is no object has no place for it.
pub proof fn law_counters_keep_what_is_stored(v: serde_json::Value)
    ensures
        counter_base(None) == Some(Map::<Seq<char>, serde_json::Value>::empty()),
        json_is_null(v) ==> counter_base(Some(v)) == Some(
            Map::<Seq<char>, serde_json::Value>::empty(),
        ),
        !json_is_null(v) ==> counter_base(Some(v)) == json_members(v),
{
}

/// What is read of the value in a contract is the value itself, each part under its
/// own name.
pub proof fn law_seed_views_keep_each_value(x: Seed)
    ensures
        x matches Seed::Uri(s) ==> x@ == SeedView::Uri(s@),
        x matches Seed::Parts { secret, issuer, account }
            ==> x@ == (SeedView::Parts { secret: secret@, issuer: issuer@, account: account@ }),
{
}

} // verus!
