//! `key`: the API keys of agents.
use vstd::prelude::*;

use crate::error::{invalid, CliError, CliErrorView};
use crate::text::{
    join, joined, lemma_shows_behind, lemma_shows_first, lemma_shows_last, lemma_shows_more,
    lemma_shows_more4, opt_text, shows, texts,
};

verus! {

/// A key needs a wallet that it opens.
pub fn check_wallets(wallet_names: &Vec<String>) -> (r: Result<(), CliError>)
    ensures
        match r {
            Ok(_) => wallet_names@.len() > 0,
            Err(e) => wallet_names@.len() == 0 && e@ == CliErrorView::InvalidArgs(
                "at least one --wallet is required"@,
            ),
        },
{
    if wallet_names.len() == 0 {
        return Err(invalid("at least one --wallet is required"));
    }
    Ok(())
}

/// Whether a passphrase has to be asked for: only when one of the wallets does
/// not open with the empty one.
pub fn needs_passphrase(opens_empty: &Vec<bool>) -> (r: bool)
    ensures
        r == exists|i: int| 0 <= i < opens_empty@.len() && !#[trigger] opens_empty@[i],
{
    let mut i: usize = 0;
    while i < opens_empty.len()
        invariant
            i <= opens_empty@.len(),
            forall|k: int| 0 <= k < i ==> #[trigger] opens_empty@[k],
        decreases opens_empty@.len() - i,
    {
        if !opens_empty[i] {
            return true;
        }
        i = i + 1;
    }
    false
}

/// A new key.
#[derive(Debug)]
pub struct CreatedKey {
    pub id: String,
    pub name: String,
    pub wallet_ids: Vec<String>,
    pub policy_ids: Vec<String>,
    pub expires_at: Option<String>,
}

/// What is printed of a new key, in front of its token.
pub open spec fn created_text(k: CreatedKey) -> Seq<char> {
    "API key created: "@ + k.id@ + "\nName:            "@ + k.name@ + "\nWallets:         "@ + join(
        texts(k.wallet_ids@),
        ", "@,
    ) + "\n"@ + (if k.policy_ids@.len() > 0 {
        "Policies:        "@ + join(texts(k.policy_ids@), ", "@) + "\n"@
    } else {
        Seq::empty()
    }) + (match opt_text(k.expires_at) {
        Some(exp) => "Expires:         "@ + exp + "\n"@,
        None => Seq::empty(),
    }) + "\n"@
}

/// What is printed of a new key, in front of its token.
pub fn create(k: &CreatedKey) -> (r: String)
    ensures
        r@ == created_text(*k),
{
    let policies = if k.policy_ids.len() > 0 {
        "Policies:        ".to_owned().concat(joined(&k.policy_ids, ", ").as_str()).concat("\n")
    } else {
        String::new()
    };
    let expires = match &k.expires_at {
        Some(exp) => "Expires:         ".to_owned().concat(exp.as_str()).concat("\n"),
        None => String::new(),
    };
    "API key created: ".to_owned().concat(k.id.as_str()).concat("\nName:            ").concat(
        k.name.as_str(),
    ).concat("\nWallets:         ").concat(joined(&k.wallet_ids, ", ").as_str()).concat(
        "\n",
    ).concat(policies.as_str()).concat(expires.as_str()).concat("\n")
}

/// A key in the list; its token is not known.
#[derive(Debug)]
pub struct ListedKey {
    pub id: String,
    pub name: String,
    pub wallet_ids: Vec<String>,
    pub policy_ids: Vec<String>,
    pub expires_at: Option<String>,
    pub created_at: String,
}

/// A key as it is listed.
pub open spec fn key_text(k: ListedKey) -> Seq<char> {
    "ID:       "@ + k.id@ + "\nName:     "@ + k.name@ + "\nWallets:  "@ + join(
        texts(k.wallet_ids@),
        ", "@,
    ) + "\nPolicies: "@ + join(texts(k.policy_ids@), ", "@) + "\n"@ + (match opt_text(
        k.expires_at,
    ) {
        Some(exp) => "Expires:  "@ + exp + "\n"@,
        None => Seq::empty(),
    }) + "Created:  "@ + k.created_at@ + "\n\n"@
}

/// The keys as they are listed.
pub open spec fn keys_text(v: Seq<ListedKey>) -> Seq<char>
    decreases v.len(),
{
    if v.len() == 0 {
        Seq::empty()
    } else {
        keys_text(v.drop_last()) + key_text(v.last())
    }
}

fn show_key(k: &ListedKey) -> (r: String)
    ensures
        r@ == key_text(*k),
{
    let expires = match &k.expires_at {
        Some(exp) => "Expires:  ".to_owned().concat(exp.as_str()).concat("\n"),
        None => String::new(),
    };
    "ID:       ".to_owned().concat(k.id.as_str()).concat("\nName:     ").concat(
        k.name.as_str(),
    ).concat("\nWallets:  ").concat(joined(&k.wallet_ids, ", ").as_str()).concat(
        "\nPolicies: ",
    ).concat(joined(&k.policy_ids, ", ").as_str()).concat("\n").concat(expires.as_str()).concat(
        "Created:  ",
    ).concat(k.created_at.as_str()).concat("\n\n")
}

/// What `key list` prints.
pub fn list(keys: &Vec<ListedKey>) -> (r: String)
    ensures
        r@ == if keys@.len() == 0 {
            "No API keys found.\n"@
        } else {
            keys_text(keys@)
        },
{
    if keys.len() == 0 {
        return "No API keys found.\n".to_owned();
    }
    let mut out = String::new();
    let mut i: usize = 0;
    assert(keys@.take(0) =~= Seq::<ListedKey>::empty());
    while i < keys.len()
        invariant
            i <= keys@.len(),
            out@ == keys_text(keys@.take(i as int)),
        decreases keys@.len() - i,
    {
        assert(keys@.take(i + 1).drop_last() =~= keys@.take(i as int));
        out = out.concat(show_key(&keys[i]).as_str());
        i = i + 1;
    }
    assert(keys@.take(i as int) =~= keys@);
    out
}

/// A revocation has to be confirmed.
pub fn check_revoke(confirm: bool) -> (r: Result<(), CliError>)
    ensures
        match r {
            Ok(_) => confirm,
            Err(e) => !confirm && e@ == CliErrorView::InvalidArgs(
                "--confirm is required to revoke an API key"@,
            ),
        },
{
    if !confirm {
        return Err(invalid("--confirm is required to revoke an API key"));
    }
    Ok(())
}

/// What is printed when a key was revoked.
pub fn revoke(id: &str, name: &str) -> (r: String)
    ensures
        r@ == "API key revoked: "@ + id@ + " ("@ + name@ + ")"@,
{
    "API key revoked: ".to_owned().concat(id).concat(" (").concat(name).concat(")")
}

/// A new key is shown by its identifier and its name, with its wallets; policies
/// and an expiry are shown when it has them.
pub proof fn law_new_keys_are_shown(k: CreatedKey)
    ensures
        shows(created_text(k), "API key created: "@, k.id@),
        shows(created_text(k), "\nName:            "@, k.name@),
        shows(created_text(k), "\nWallets:         "@, join(texts(k.wallet_ids@), ", "@)),
        k.policy_ids@.len() > 0 ==> shows(
            created_text(k),
            "Policies:        "@,
            join(texts(k.policy_ids@), ", "@),
        ),
        k.expires_at matches Some(t) ==> shows(created_text(k), "Expires:         "@, t@),
{
    let t = created_text(k);
    let wallets = join(texts(k.wallet_ids@), ", "@);
    let policies = join(texts(k.policy_ids@), ", "@);
    let pol = if k.policy_ids@.len() > 0 {
        "Policies:        "@ + policies + "\n"@
    } else {
        Seq::empty()
    };
    let exp = match opt_text(k.expires_at) {
        Some(exp) => "Expires:         "@ + exp + "\n"@,
        None => Seq::empty(),
    };
    assert(shows(t, "API key created: "@, k.id@)) by {
        lemma_shows_first("API key created: "@, k.id@);
        let u = "API key created: "@ + k.id@;
        lemma_shows_more4(u, "\nName:            "@, k.name@, "\nWallets:         "@, wallets,
            "API key created: "@, k.id@);
        let u = u + "\nName:            "@ + k.name@ + "\nWallets:         "@ + wallets;
        lemma_shows_more4(u, "\n"@, pol, exp, "\n"@, "API key created: "@, k.id@);
    }
    assert(shows(t, "\nName:            "@, k.name@)) by {
        let a = "API key created: "@ + k.id@;
        lemma_shows_last(a, "\nName:            "@, k.name@);
        let u = a + "\nName:            "@ + k.name@;
        lemma_shows_more4(u, "\nWallets:         "@, wallets, "\n"@, pol, "\nName:            "@,
            k.name@);
        let u = u + "\nWallets:         "@ + wallets + "\n"@ + pol;
        lemma_shows_more(u, exp, "\nName:            "@, k.name@);
        let u = u + exp;
        lemma_shows_more(u, "\n"@, "\nName:            "@, k.name@);
    }
    assert(shows(t, "\nWallets:         "@, wallets)) by {
        let a = "API key created: "@ + k.id@ + "\nName:            "@ + k.name@;
        lemma_shows_last(a, "\nWallets:         "@, wallets);
        let u = a + "\nWallets:         "@ + wallets;
        lemma_shows_more4(u, "\n"@, pol, exp, "\n"@, "\nWallets:         "@, wallets);
    }
    if k.policy_ids@.len() > 0 {
        assert(shows(t, "Policies:        "@, policies)) by {
            lemma_shows_first("Policies:        "@, policies);
            lemma_shows_more("Policies:        "@ + policies, "\n"@, "Policies:        "@, policies);
            let a = "API key created: "@ + k.id@ + "\nName:            "@ + k.name@
                + "\nWallets:         "@ + wallets + "\n"@;
            lemma_shows_behind(a, pol, "Policies:        "@, policies);
            let u = a + pol;
            lemma_shows_more(u, exp, "Policies:        "@, policies);
            let u = u + exp;
            lemma_shows_more(u, "\n"@, "Policies:        "@, policies);
        }
    }
    if let Some(e) = k.expires_at {
        assert(shows(t, "Expires:         "@, e@)) by {
            lemma_shows_first("Expires:         "@, e@);
            lemma_shows_more("Expires:         "@ + e@, "\n"@, "Expires:         "@, e@);
            let a = "API key created: "@ + k.id@ + "\nName:            "@ + k.name@
                + "\nWallets:         "@ + wallets + "\n"@ + pol;
            lemma_shows_behind(a, exp, "Expires:         "@, e@);
            let u = a + exp;
            lemma_shows_more(u, "\n"@, "Expires:         "@, e@);
        }
    }
}

/// A listed key is shown by its identifier, its name, its wallets and policies and
/// the time it was created, and an expiry when it has one.
pub proof fn law_listed_keys_are_shown(k: ListedKey)
    ensures
        shows(key_text(k), "ID:       "@, k.id@),
        shows(key_text(k), "\nName:     "@, k.name@),
        shows(key_text(k), "\nWallets:  "@, join(texts(k.wallet_ids@), ", "@)),
        shows(key_text(k), "\nPolicies: "@, join(texts(k.policy_ids@), ", "@)),
        shows(key_text(k), "Created:  "@, k.created_at@),
        k.expires_at matches Some(t) ==> shows(key_text(k), "Expires:  "@, t@),
{
    let t = key_text(k);
    let wallets = join(texts(k.wallet_ids@), ", "@);
    let policies = join(texts(k.policy_ids@), ", "@);
    let exp = match opt_text(k.expires_at) {
        Some(exp) => "Expires:  "@ + exp + "\n"@,
        None => Seq::empty(),
    };
    assert(shows(t, "ID:       "@, k.id@)) by {
        lemma_shows_first("ID:       "@, k.id@);
        let u = "ID:       "@ + k.id@;
        lemma_shows_more4(u, "\nName:     "@, k.name@, "\nWallets:  "@, wallets, "ID:       "@, k.id@);
        let u = u + "\nName:     "@ + k.name@ + "\nWallets:  "@ + wallets;
        lemma_shows_more4(u, "\nPolicies: "@, policies, "\n"@, exp, "ID:       "@, k.id@);
        let u = u + "\nPolicies: "@ + policies + "\n"@ + exp;
        lemma_shows_more(u, "Created:  "@, "ID:       "@, k.id@);
        let u = u + "Created:  "@;
        lemma_shows_more(u, k.created_at@, "ID:       "@, k.id@);
        let u = u + k.created_at@;
        lemma_shows_more(u, "\n\n"@, "ID:       "@, k.id@);
    }
    assert(shows(t, "\nName:     "@, k.name@)) by {
        let a = "ID:       "@ + k.id@;
        lemma_shows_last(a, "\nName:     "@, k.name@);
        let u = a + "\nName:     "@ + k.name@;
        lemma_shows_more4(u, "\nWallets:  "@, wallets, "\nPolicies: "@, policies, "\nName:     "@,
            k.name@);
        let u = u + "\nWallets:  "@ + wallets + "\nPolicies: "@ + policies;
        lemma_shows_more4(u, "\n"@, exp, "Created:  "@, k.created_at@, "\nName:     "@, k.name@);
        let u = u + "\n"@ + exp + "Created:  "@ + k.created_at@;
        lemma_shows_more(u, "\n\n"@, "\nName:     "@, k.name@);
    }
    assert(shows(t, "\nWallets:  "@, wallets)) by {
        let a = "ID:       "@ + k.id@ + "\nName:     "@ + k.name@;
        lemma_shows_last(a, "\nWallets:  "@, wallets);
        let u = a + "\nWallets:  "@ + wallets;
        lemma_shows_more4(u, "\nPolicies: "@, policies, "\n"@, exp, "\nWallets:  "@, wallets);
        let u = u + "\nPolicies: "@ + policies + "\n"@ + exp;
        lemma_shows_more(u, "Created:  "@, "\nWallets:  "@, wallets);
        let u = u + "Created:  "@;
        lemma_shows_more(u, k.created_at@, "\nWallets:  "@, wallets);
        let u = u + k.created_at@;
        lemma_shows_more(u, "\n\n"@, "\nWallets:  "@, wallets);
    }
    assert(shows(t, "\nPolicies: "@, policies)) by {
        let a = "ID:       "@ + k.id@ + "\nName:     "@ + k.name@ + "\nWallets:  "@ + wallets;
        lemma_shows_last(a, "\nPolicies: "@, policies);
        let u = a + "\nPolicies: "@ + policies;
        lemma_shows_more4(u, "\n"@, exp, "Created:  "@, k.created_at@, "\nPolicies: "@, policies);
        let u = u + "\n"@ + exp + "Created:  "@ + k.created_at@;
        lemma_shows_more(u, "\n\n"@, "\nPolicies: "@, policies);
    }
    assert(shows(t, "Created:  "@, k.created_at@)) by {
        let a = "ID:       "@ + k.id@ + "\nName:     "@ + k.name@ + "\nWallets:  "@ + wallets
            + "\nPolicies: "@ + policies + "\n"@ + exp;
        lemma_shows_last(a, "Created:  "@, k.created_at@);
        let u = a + "Created:  "@ + k.created_at@;
        lemma_shows_more(u, "\n\n"@, "Created:  "@, k.created_at@);
    }
    if let Some(e) = k.expires_at {
        assert(shows(t, "Expires:  "@, e@)) by {
            lemma_shows_first("Expires:  "@, e@);
            lemma_shows_more("Expires:  "@ + e@, "\n"@, "Expires:  "@, e@);
            let a = "ID:       "@ + k.id@ + "\nName:     "@ + k.name@ + "\nWallets:  "@ + wallets
                + "\nPolicies: "@ + policies + "\n"@;
            lemma_shows_behind(a, exp, "Expires:  "@, e@);
            let u = a + exp;
            lemma_shows_more(u, "Created:  "@, "Expires:  "@, e@);
            let u = u + "Created:  "@;
            lemma_shows_more(u, k.created_at@, "Expires:  "@, e@);
            let u = u + k.created_at@;
            lemma_shows_more(u, "\n\n"@, "Expires:  "@, e@);
        }
    }
}

/// Keys are listed one behind the other, in their order.
pub proof fn law_all_keys_are_listed(v: Seq<ListedKey>, k: ListedKey)
    ensures
        keys_text(v.push(k)) == keys_text(v) + key_text(k),
        keys_text(Seq::<ListedKey>::empty()).len() == 0,
{
    assert(v.push(k).drop_last() =~= v);
}

} // verus!
