//! The commands of the program, and what they share: credentials from the
//! environment, the layout of the state directory, and the arguments of the
//! secret store.
pub mod age_cmd;
pub mod agent_secret;
pub mod audit;
pub mod audit_secrets;
pub mod backup;
pub mod clipboard;
pub mod completion;
pub mod config;
pub mod derive;
pub mod doctor;
pub mod editor;
pub mod env_cmd;
pub mod find;
pub mod fsck;
pub mod generate;
pub mod git_cmd;
pub mod grep;
pub mod history;
pub mod intent;
pub mod key;
pub mod migrate;
pub mod password;
pub mod pay;
pub mod pay_x402;
pub mod render;
pub mod sbom;
pub mod secret;
pub mod send;
pub mod service;
pub mod session_key;
pub mod sign_auth;
pub mod sign_in;
pub mod sign_message;
pub mod sign_transaction;
pub mod status;
pub mod totp;
pub mod update;
pub mod vanity;
pub mod vault;
pub mod verify;
pub mod wallet;
pub mod wallet_rpc;
pub mod wc;
pub mod webui;

use vstd::prelude::*;

use crate::environment::{value_of, Environment};
use crate::error::{invalid, invalid_args, CliError, CliErrorView, CoreFault, IoFault};
use crate::path::{child, child_path};
use crate::seqs::lemma_push_to_set;
use crate::text::{
    ascii_lower, cut, cut_once, law_cutting_gives_both_sides, law_sides_are_cut_apart, opt_text,
    same, split, split_once, strs, texts, to_ascii_lower, trim, trimmed,
};
use crate::time::{parse_timestamp, timestamp_of};

verus! {

// ---------------------------------------------------------------------------
// Burn-after-reading credentials
// ---------------------------------------------------------------------------

/// The value of a variable, which is removed. An empty value is a value.
pub fn take_env(env: &mut Environment, name: &str) -> (r: Option<String>)
    ensures
        opt_text(r) == value_of(old(env)@, name@),
        final(env)@ == old(env)@.remove(name@),
{
    let value = env.get(name);
    env.unset(name);
    value
}

/// The value of the first of `names`, from position `i` on, that is set.
pub open spec fn first_set(
    env: Map<Seq<char>, Seq<char>>,
    names: Seq<Seq<char>>,
    i: int,
) -> Option<Seq<char>>
    decreases names.len() - i,
{
    if i >= names.len() {
        None
    } else if env.contains_key(names[i]) {
        Some(env[names[i]])
    } else {
        first_set(env, names, i + 1)
    }
}

/// The environment without any of `names`.
pub open spec fn drained(
    env: Map<Seq<char>, Seq<char>>,
    names: Seq<Seq<char>>,
) -> Map<Seq<char>, Seq<char>> {
    env.remove_keys(names.to_set())
}

/// The first of `names` that is set; all of them are removed, so that no alias
/// stays behind.
pub fn take_first_env(env: &mut Environment, names: &[&str]) -> (r: Option<String>)
    ensures
        opt_text(r) == first_set(old(env)@, strs(names@), 0),
        final(env)@ == drained(old(env)@, strs(names@)),
{
    let ghost start = env@;
    let ghost all = strs(names@);
    let mut first: Option<String> = None;
    let mut i: usize = 0;
    assert(drained(start, all.take(0)) =~= start);
    while i < names.len()
        invariant
            i <= names@.len(),
            all == strs(names@),
            env@ == drained(start, all.take(i as int)),
            match first {
                Some(v) => first_set(start, all, 0) == Some(v@),
                None => first_set(start, all, 0) == first_set(start, all, i as int),
            },
            first is None ==> forall|k: int| 0 <= k < i ==> !start.contains_key(#[trigger] all[k]),
        decreases names@.len() - i,
    {
        let name: &str = names[i];
        let ghost before = env@;
        let got = take_env(env, name);
        proof {
            let done = all.take(i as int);
            let next = all.take(i + 1);
            let last = all[i as int];
            assert(next =~= done.push(last));
            lemma_push_to_set(done, last);
            assert(env@ =~= drained(start, next));
            if first is None {
                assert(!done.to_set().contains(all[i as int])
                    || !start.contains_key(all[i as int])) by {
                    if done.contains(all[i as int]) {
                        let k = choose|k: int| 0 <= k < done.len() && done[k] == all[i as int];
                        assert(!start.contains_key(all[k]));
                    }
                }
            }
        }
        if first.is_none() {
            first = got;
        }
        i = i + 1;
    }
    assert(all.take(i as int) =~= all);
    first
}

/// The names that hold the wallet passphrase, the canonical one first.
pub open spec fn passphrase_vars() -> Seq<Seq<char>> {
    seq![
        "ONECIPHER_PASSPHRASE"@,
        "OC_PASSPHRASE"@,
        "OWS_PASSPHRASE"@,
        "OWX_PASSPHRASE"@,
        "LWS_PASSPHRASE"@,
    ]
}

/// The wallet passphrase; every name it may stand under is removed.
pub fn take_passphrase(env: &mut Environment) -> (r: Option<String>)
    ensures
        opt_text(r) == first_set(old(env)@, passphrase_vars(), 0),
        final(env)@ == drained(old(env)@, passphrase_vars()),
{
    let names: [&str; 5] = [
        "ONECIPHER_PASSPHRASE",
        "OC_PASSPHRASE",
        "OWS_PASSPHRASE",
        "OWX_PASSPHRASE",
        "LWS_PASSPHRASE",
    ];
    assert(strs(names@) =~= passphrase_vars());
    take_first_env(env, &names)
}

/// The wallet passphrase, which stays where it is.
pub fn peek_passphrase(env: &Environment) -> (r: Option<String>)
    ensures
        opt_text(r) == first_set(env@, passphrase_vars(), 0),
{
    proof {
        reveal_with_fuel(first_set, 6);
    }
    let mut found = env.get("ONECIPHER_PASSPHRASE");
    if found.is_none() {
        found = env.get("OC_PASSPHRASE");
    }
    if found.is_none() {
        found = env.get("OWS_PASSPHRASE");
    }
    if found.is_none() {
        found = env.get("OWX_PASSPHRASE");
    }
    if found.is_none() {
        found = env.get("LWS_PASSPHRASE");
    }
    found
}

/// A credential can be taken only once: whatever names are drained, none of
/// them has a value afterwards, and no other variable is touched.
pub proof fn law_burn_after_reading(
    env: Map<Seq<char>, Seq<char>>,
    names: Seq<Seq<char>>,
    x: Seq<char>,
)
    ensures
        first_set(drained(env, names), names, 0) is None,
        !names.contains(x) ==> value_of(drained(env, names), x) == value_of(env, x),
{
    lemma_drained_from(env, names, 0);
}

proof fn lemma_drained_from(env: Map<Seq<char>, Seq<char>>, names: Seq<Seq<char>>, i: int)
    requires
        0 <= i,
    ensures
        first_set(drained(env, names), names, i) is None,
    decreases names.len() - i,
{
    if i < names.len() {
        assert(names.contains(names[i]));
        lemma_drained_from(env, names, i + 1);
    }
}

/// Whether the program may ask at the terminal: never when
/// `OC_NONINTERACTIVE` is set or in JSON mode.
pub fn is_interactive_stdin(noninteractive: bool, json_mode: bool, terminal: bool) -> (r: bool)
    ensures
        r == (!noninteractive && !json_mode && terminal),
{
    if noninteractive {
        return false;
    }
    if json_mode {
        return false;
    }
    terminal
}

/// Where a credential comes from: it is at hand, or it has to be asked for.
#[derive(Debug)]
pub enum Credential {
    Given(String),
    Ask(String),
}

/// A credential with its text as a sequence of characters.
pub enum CredentialView {
    Given(Seq<char>),
    Ask(Seq<char>),
}

impl View for Credential {
    type V = CredentialView;

    open spec fn view(&self) -> CredentialView {
        match *self {
            Credential::Given(s) => CredentialView::Given(s@),
            Credential::Ask(s) => CredentialView::Ask(s@),
        }
    }
}

/// A value counts when something is left of it after trimming.
pub open spec fn usable(value: Option<Seq<char>>) -> Option<Seq<char>> {
    match value {
        Some(v) => if trim(v).len() > 0 {
            Some(trim(v))
        } else {
            None
        },
        None => None,
    }
}

/// What to do for a credential: use the environment's, ask at the terminal, or
/// fail.
pub open spec fn credential_source(
    value: Option<Seq<char>>,
    interactive: bool,
    prompt: Seq<char>,
    missing: Seq<char>,
) -> Result<CredentialView, CliErrorView> {
    match usable(value) {
        Some(v) => Ok(CredentialView::Given(v)),
        None => if interactive {
            Ok(CredentialView::Ask(prompt))
        } else {
            Err(CliErrorView::InvalidArgs(missing))
        },
    }
}

/// The views of a result.
pub open spec fn credential_result(r: Result<Credential, CliError>) -> Result<
    CredentialView,
    CliErrorView,
> {
    match r {
        Ok(c) => Ok(c@),
        Err(e) => Err(e@),
    }
}

fn choose_credential(
    value: Option<String>,
    interactive: bool,
    prompt: &str,
    missing: &str,
) -> (r: Result<Credential, CliError>)
    ensures
        credential_result(r) == credential_source(
            opt_text(value),
            interactive,
            prompt@,
            missing@,
        ),
{
    match value {
        Some(v) => {
            let t = trimmed(v.as_str());
            if !t.as_str().is_empty() {
                return Ok(Credential::Given(t));
            }
        },
        None => {},
    }
    if interactive {
        Ok(Credential::Ask(prompt.to_owned()))
    } else {
        Err(invalid(missing))
    }
}

/// What a line typed at the prompt gives: the trimmed text, or an error when
/// nothing is left.
pub open spec fn typed_line(line: Seq<char>, missing: Seq<char>) -> Result<
    Seq<char>,
    CliErrorView,
> {
    if trim(line).len() > 0 {
        Ok(trim(line))
    } else {
        Err(CliErrorView::InvalidArgs(missing))
    }
}

/// The views of a text or an error.
pub open spec fn text_result(r: Result<String, CliError>) -> Result<Seq<char>, CliErrorView> {
    match r {
        Ok(s) => Ok(s@),
        Err(e) => Err(e@),
    }
}

fn accept_line(line: &str, missing: &str) -> (r: Result<String, CliError>)
    ensures
        text_result(r) == typed_line(line@, missing@),
{
    let t = trimmed(line);
    if t.as_str().is_empty() {
        return Err(invalid(missing));
    }
    Ok(t)
}

/// The names that hold a mnemonic.
pub open spec fn mnemonic_vars() -> Seq<Seq<char>> {
    seq!["ONECIPHER_MNEMONIC"@, "OWS_MNEMONIC"@, "LWS_MNEMONIC"@]
}

/// The names that hold a private key.
pub open spec fn private_key_vars() -> Seq<Seq<char>> {
    seq!["ONECIPHER_PRIVATE_KEY"@, "OWS_PRIVATE_KEY"@, "LWS_PRIVATE_KEY"@]
}

/// The mnemonic from the environment, or the prompt for it.
pub fn read_mnemonic(env: &mut Environment, interactive: bool) -> (r: Result<Credential, CliError>)
    ensures
        final(env)@ == drained(old(env)@, mnemonic_vars()),
        credential_result(r) == credential_source(
            first_set(old(env)@, mnemonic_vars(), 0),
            interactive,
            "Enter mnemonic: "@,
            "no mnemonic provided (set ONECIPHER_MNEMONIC or pipe via stdin)"@,
        ),
{
    let names: [&str; 3] = ["ONECIPHER_MNEMONIC", "OWS_MNEMONIC", "LWS_MNEMONIC"];
    assert(strs(names@) =~= mnemonic_vars());
    let value = take_first_env(env, &names);
    choose_credential(
        value,
        interactive,
        "Enter mnemonic: ",
        "no mnemonic provided (set ONECIPHER_MNEMONIC or pipe via stdin)",
    )
}

/// The mnemonic in a typed line.
pub fn mnemonic_line(line: &str) -> (r: Result<String, CliError>)
    ensures
        text_result(r) == typed_line(
            line@,
            "no mnemonic provided (set ONECIPHER_MNEMONIC or pipe via stdin)"@,
        ),
{
    accept_line(line, "no mnemonic provided (set ONECIPHER_MNEMONIC or pipe via stdin)")
}

/// The private key from the environment, or the prompt for it.
pub fn read_private_key(env: &mut Environment, interactive: bool) -> (r: Result<
    Credential,
    CliError,
>)
    ensures
        final(env)@ == drained(old(env)@, private_key_vars()),
        credential_result(r) == credential_source(
            first_set(old(env)@, private_key_vars(), 0),
            interactive,
            "Enter private key (hex): "@,
            "no private key provided (set ONECIPHER_PRIVATE_KEY or pipe via stdin)"@,
        ),
{
    let names: [&str; 3] = ["ONECIPHER_PRIVATE_KEY", "OWS_PRIVATE_KEY", "LWS_PRIVATE_KEY"];
    assert(strs(names@) =~= private_key_vars());
    let value = take_first_env(env, &names);
    choose_credential(
        value,
        interactive,
        "Enter private key (hex): ",
        "no private key provided (set ONECIPHER_PRIVATE_KEY or pipe via stdin)",
    )
}

/// The private key in a typed line.
pub fn private_key_line(line: &str) -> (r: Result<String, CliError>)
    ensures
        text_result(r) == typed_line(
            line@,
            "no private key provided (set ONECIPHER_PRIVATE_KEY or pipe via stdin)"@,
        ),
{
    accept_line(line, "no private key provided (set ONECIPHER_PRIVATE_KEY or pipe via stdin)")
}

/// The passphrase from the environment as it stands there, or the prompt for
/// it, or none where nobody can be asked.
pub fn read_passphrase(env: &mut Environment, interactive: bool) -> (r: Credential)
    ensures
        final(env)@ == drained(old(env)@, passphrase_vars()),
        r@ == match first_set(old(env)@, passphrase_vars(), 0) {
            Some(v) => CredentialView::Given(v),
            None => if interactive {
                CredentialView::Ask("Passphrase (empty for none): "@)
            } else {
                CredentialView::Given(Seq::empty())
            },
        },
{
    match take_passphrase(env) {
        Some(v) => Credential::Given(v),
        None => if interactive {
            Credential::Ask("Passphrase (empty for none): ".to_owned())
        } else {
            Credential::Given(String::new())
        },
    }
}

/// The passphrase in a typed line; it may be empty.
pub fn passphrase_line(line: &str) -> (r: String)
    ensures
        r@ == trim(line@),
{
    trimmed(line)
}

/// The secret value from `ONECIPHER_SECRET`, or the prompt for it.
pub fn read_secret_from_env_or_prompt(env: &mut Environment, interactive: bool) -> (r: Result<
    Credential,
    CliError,
>)
    ensures
        final(env)@ == old(env)@.remove("ONECIPHER_SECRET"@),
        credential_result(r) == credential_source(
            value_of(old(env)@, "ONECIPHER_SECRET"@),
            interactive,
            "Enter secret: "@,
            "no secret provided (set ONECIPHER_SECRET or enter via stdin)"@,
        ),
{
    let value = take_env(env, "ONECIPHER_SECRET");
    choose_credential(
        value,
        interactive,
        "Enter secret: ",
        "no secret provided (set ONECIPHER_SECRET or enter via stdin)",
    )
}

/// The secret value in a typed line.
pub fn secret_line(line: &str) -> (r: Result<String, CliError>)
    ensures
        text_result(r) == typed_line(
            line@,
            "no secret provided (set ONECIPHER_SECRET or enter via stdin)"@,
        ),
{
    accept_line(line, "no secret provided (set ONECIPHER_SECRET or enter via stdin)")
}

/// What came of opening a wallet with the empty passphrase.
#[derive(Clone, Copy, Debug, PartialEq, Eq, Structural)]
pub enum EmptyTry {
    Opened,
    WrongPassphrase,
    Failed,
}

/// What a signing key is resolved with next.
#[derive(Clone, Copy, Debug, PartialEq, Eq, Structural)]
pub enum KeyStep {
    UseKey,
    AskPassphrase,
    GiveUp,
}

/// The empty passphrase is tried first; only when it does not decrypt the
/// wallet is a passphrase asked for.
pub fn resolve_signing_key(first: EmptyTry) -> (r: KeyStep)
    ensures
        r == match first {
            EmptyTry::Opened => KeyStep::UseKey,
            EmptyTry::WrongPassphrase => KeyStep::AskPassphrase,
            EmptyTry::Failed => KeyStep::GiveUp,
        },
{
    match first {
        EmptyTry::Opened => KeyStep::UseKey,
        EmptyTry::WrongPassphrase => KeyStep::AskPassphrase,
        EmptyTry::Failed => KeyStep::GiveUp,
    }
}

// ---------------------------------------------------------------------------
// The state directory
// ---------------------------------------------------------------------------

/// The secret store: `<home>/store`.
pub fn secret_store_root(home: &str) -> (r: String)
    ensures
        r@ == child_path(home@, "store"@),
{
    child(home, "store")
}

/// The keys: `<home>/keys`.
pub fn keys_dir(home: &str) -> (r: String)
    ensures
        r@ == child_path(home@, "keys"@),
{
    child(home, "keys")
}

/// The age identity: `<home>/keys/age-identity.txt`.
pub fn age_identity_path(home: &str) -> (r: String)
    ensures
        r@ == child_path(child_path(home@, "keys"@), "age-identity.txt"@),
{
    child(keys_dir(home).as_str(), "age-identity.txt")
}

/// The public age recipient: `<home>/keys/age-recipient.txt`.
pub fn age_recipient_public_path(home: &str) -> (r: String)
    ensures
        r@ == child_path(child_path(home@, "keys"@), "age-recipient.txt"@),
{
    child(keys_dir(home).as_str(), "age-recipient.txt")
}

/// The list of age recipients: `<home>/.age-recipients`.
pub fn age_recipients_path(home: &str) -> (r: String)
    ensures
        r@ == child_path(home@, ".age-recipients"@),
{
    child(home, ".age-recipients")
}

/// The error for an identity file that cannot be read: a missing file asks for
/// `age init`, any other failure is an I/O error.
pub fn identity_read_error(kind: IoFault, message: &str, path: &str) -> (e: CliError)
    ensures
        e@ == match kind {
            IoFault::NotFound => CliErrorView::InvalidArgs(
                "age identity not found at "@ + path@ + " — run `onecipher age init` first"@,
            ),
            _ => CliErrorView::Io(kind, message@),
        },
{
    match kind {
        IoFault::NotFound => invalid_args(
            "age identity not found at ".to_owned().concat(path).concat(
                " — run `onecipher age init` first",
            ),
        ),
        _ => CliError::Io(kind, message.to_owned()),
    }
}

/// The text of an identity file that is parsed.
pub fn identity_text(content: &str) -> (r: String)
    ensures
        r@ == trim(content@),
{
    trimmed(content)
}

/// The error for an identity that does not parse.
pub fn identity_parse_error(message: &str) -> (e: CliError)
    ensures
        e@ == CliErrorView::InvalidArgs("invalid age identity: "@ + message@),
{
    invalid_args("invalid age identity: ".to_owned().concat(message))
}

/// The recipients on file: none when there is no file.
pub fn load_recipients(loaded: Option<Result<Vec<String>, String>>) -> (r: Result<
    Vec<String>,
    CliError,
>)
    ensures
        match loaded {
            None => r matches Ok(v) && v@.len() == 0,
            Some(Ok(list)) => r matches Ok(v) && v@ == list@,
            Some(Err(e)) => r matches Err(f) && f@ == CliErrorView::InvalidArgs(
                "failed to load recipients: "@ + e@,
            ),
        },
{
    match loaded {
        None => Ok(Vec::new()),
        Some(Ok(list)) => Ok(list),
        Some(Err(e)) => Err(
            invalid_args("failed to load recipients: ".to_owned().concat(e.as_str())),
        ),
    }
}

/// The control socket of the daemon, and the error when nobody listens there.
pub fn daemon_unreachable(path: &str, message: &str) -> (e: CliError)
    ensures
        e@ == CliErrorView::InvalidArgs(
            "cannot connect to daemon at "@ + path@ + " — is `onecipher --daemon` running? ("@
                + message@ + ")"@,
        ),
{
    invalid_args(
        "cannot connect to daemon at ".to_owned().concat(path).concat(
            " — is `onecipher --daemon` running? (",
        ).concat(message).concat(")"),
    )
}

// ---------------------------------------------------------------------------
// API tokens
// ---------------------------------------------------------------------------

/// An API key as far as its validity goes.
#[derive(Debug)]
pub struct ApiKey {
    pub id: String,
    pub expires_at: Option<String>,
}

/// A credential that is no API token is rejected before anything is looked up.
pub fn require_token(is_token: bool, prefix: &str) -> (r: Result<(), CliError>)
    ensures
        match r {
            Ok(_) => is_token,
            Err(e) => !is_token && e@ == CliErrorView::InvalidArgs(
                "invalid API token — expected '"@ + prefix@ + "' prefix"@,
            ),
        },
{
    if is_token {
        Ok(())
    } else {
        Err(
            invalid_args(
                "invalid API token — expected '".to_owned().concat(prefix).concat("' prefix"),
            ),
        )
    }
}

/// Whether a key may be used at `now`: it has no expiry, or one that is not
/// past.
pub open spec fn token_verdict(
    expires: Option<(Seq<char>, Result<i128, Seq<char>>)>,
    now: i128,
    expired: Seq<char>,
) -> Result<(), CliErrorView> {
    match expires {
        None => Ok(()),
        Some((text, Err(fault))) => Err(
            CliErrorView::InvalidArgs("invalid expires_at timestamp '"@ + text + "': "@ + fault),
        ),
        Some((text, Ok(at))) => if now > at {
            Err(CliErrorView::Lws(CoreFault::ApiKeyExpired, expired))
        } else {
            Ok(())
        },
    }
}

/// The views of a check's outcome.
pub open spec fn unit_result(r: Result<(), CliError>) -> Result<(), CliErrorView> {
    match r {
        Ok(_) => Ok(()),
        Err(e) => Err(e@),
    }
}

/// Whether a key with the parsed expiry `at` may be used at `now`.
pub fn check_expiry(text: &str, at: &Result<i128, String>, now: i128, expired: &str) -> (r: Result<
    (),
    CliError,
>)
    ensures
        unit_result(r) == token_verdict(
            Some(
                (
                    text@,
                    match *at {
                        Ok(n) => Ok(n),
                        Err(e) => Err(e@),
                    },
                ),
            ),
            now,
            expired@,
        ),
{
    match at {
        Err(e) => Err(
            invalid_args(
                "invalid expires_at timestamp '".to_owned().concat(text).concat("': ").concat(
                    e.as_str(),
                ),
            ),
        ),
        Ok(n) => if now > *n {
            Err(CliError::Lws(CoreFault::ApiKeyExpired, expired.to_owned()))
        } else {
            Ok(())
        },
    }
}

/// Whether the key that an API token belongs to may be used at `now`.
/// `expired` is the message for a key past its expiry.
pub fn validate_api_token(key: &ApiKey, now: i128, expired: &str) -> (r: Result<(), CliError>)
    ensures
        unit_result(r) == token_verdict(
            match key.expires_at {
                Some(t) => Some((t@, timestamp_of(t@))),
                None => None,
            },
            now,
            expired@,
        ),
{
    match &key.expires_at {
        None => Ok(()),
        Some(t) => {
            let at = parse_timestamp(t.as_str());
            check_expiry(t.as_str(), &at, now, expired)
        },
    }
}

// ---------------------------------------------------------------------------
// Arguments of the secret store
// ---------------------------------------------------------------------------

/// The kinds of items in the secret store.
#[derive(Clone, Copy, Debug, PartialEq, Eq, Structural)]
pub enum ItemType {
    Mnemonic,
    PrivateKey,
    Password,
    Totp,
    Note,
    File,
}

/// The item type of a name in lower case.
pub open spec fn item_type_of(name: Seq<char>) -> Option<ItemType> {
    if name == "mnemonic"@ {
        Some(ItemType::Mnemonic)
    } else if name == "private_key"@ || name == "private-key"@ || name == "private key"@ {
        Some(ItemType::PrivateKey)
    } else if name == "password"@ {
        Some(ItemType::Password)
    } else if name == "totp"@ {
        Some(ItemType::Totp)
    } else if name == "note"@ {
        Some(ItemType::Note)
    } else if name == "file"@ {
        Some(ItemType::File)
    } else {
        None
    }
}

/// The item type that `s` names, in any case and with white space around it.
pub fn parse_item_type(s: &str) -> (r: Result<ItemType, CliError>)
    ensures
        match r {
            Ok(t) => item_type_of(ascii_lower(trim(s@))) == Some(t),
            Err(e) => item_type_of(ascii_lower(trim(s@))) is None && e@
                == CliErrorView::InvalidArgs(
                "unknown item type '"@ + s@
                    + "' (expected: mnemonic, private_key, password, totp, note, file)"@,
            ),
        },
{
    let name = to_ascii_lower(trimmed(s).as_str());
    let name = name.as_str();
    if same(name, "mnemonic") {
        Ok(ItemType::Mnemonic)
    } else if same(name, "private_key") || same(name, "private-key") || same(name, "private key") {
        Ok(ItemType::PrivateKey)
    } else if same(name, "password") {
        Ok(ItemType::Password)
    } else if same(name, "totp") {
        Ok(ItemType::Totp)
    } else if same(name, "note") {
        Ok(ItemType::Note)
    } else if same(name, "file") {
        Ok(ItemType::File)
    } else {
        Err(
            invalid_args(
                "unknown item type '".to_owned().concat(s).concat(
                    "' (expected: mnemonic, private_key, password, totp, note, file)",
                ),
            ),
        )
    }
}

/// What is known about a secret besides its value.
#[derive(Debug)]
pub struct SecretMetadata {
    pub url: Option<String>,
    pub username: Option<String>,
    pub chain: Option<String>,
    pub issuer: Option<String>,
    pub account: Option<String>,
    pub tags: Vec<String>,
}

/// [`SecretMetadata`] with its texts as sequences of characters.
pub struct MetadataView {
    pub url: Option<Seq<char>>,
    pub username: Option<Seq<char>>,
    pub chain: Option<Seq<char>>,
    pub issuer: Option<Seq<char>>,
    pub account: Option<Seq<char>>,
    pub tags: Seq<Seq<char>>,
}

impl View for SecretMetadata {
    type V = MetadataView;

    open spec fn view(&self) -> MetadataView {
        MetadataView {
            url: opt_text(self.url),
            username: opt_text(self.username),
            chain: opt_text(self.chain),
            issuer: opt_text(self.issuer),
            account: opt_text(self.account),
            tags: texts(self.tags@),
        }
    }
}

/// No metadata.
pub open spec fn no_metadata() -> MetadataView {
    MetadataView {
        url: None,
        username: None,
        chain: None,
        issuer: None,
        account: None,
        tags: Seq::empty(),
    }
}

impl Default for SecretMetadata {
    /// No metadata.
    fn default() -> (r: Self)
        ensures
            r@ == no_metadata(),
    {
        let r = SecretMetadata {
            url: None,
            username: None,
            chain: None,
            issuer: None,
            account: None,
            tags: Vec::new(),
        };
        assert(texts(r.tags@) =~= Seq::<Seq<char>>::empty());
        r
    }
}

/// The pieces between commas, each trimmed.
pub open spec fn tags_of(val: Seq<char>) -> Seq<Seq<char>> {
    let parts = split(val, ',');
    Seq::new(parts.len(), |i: int| trim(parts[i]))
}

/// The metadata after one `key=val` pair.
pub open spec fn with_pair(m: MetadataView, pair: Seq<char>) -> Result<
    MetadataView,
    CliErrorView,
> {
    match split_once(pair, '=') {
        None => Err(
            CliErrorView::InvalidArgs("invalid --meta (expected key=val): '"@ + pair + "'"@),
        ),
        Some((k, v)) => {
            let key = trim(k);
            let val = trim(v);
            if key == "url"@ {
                Ok(MetadataView { url: Some(val), ..m })
            } else if key == "username"@ {
                Ok(MetadataView { username: Some(val), ..m })
            } else if key == "chain"@ {
                Ok(MetadataView { chain: Some(val), ..m })
            } else if key == "issuer"@ {
                Ok(MetadataView { issuer: Some(val), ..m })
            } else if key == "account"@ {
                Ok(MetadataView { account: Some(val), ..m })
            } else if key == "tags"@ {
                Ok(MetadataView { tags: tags_of(val), ..m })
            } else {
                Err(
                    CliErrorView::InvalidArgs(
                        "unknown metadata key '"@ + key
                            + "' (expected: url, username, chain, issuer, account, tags)"@,
                    ),
                )
            }
        },
    }
}

/// The metadata after the pairs from position `i` on; the first wrong pair is
/// the error.
pub open spec fn with_pairs(m: MetadataView, pairs: Seq<Seq<char>>, i: int) -> Result<
    MetadataView,
    CliErrorView,
>
    decreases pairs.len() - i,
{
    if i >= pairs.len() {
        Ok(m)
    } else {
        match with_pair(m, pairs[i]) {
            Ok(n) => with_pairs(n, pairs, i + 1),
            Err(e) => Err(e),
        }
    }
}

fn trim_all(parts: &Vec<String>) -> (r: Vec<String>)
    ensures
        texts(r@) == Seq::new(parts@.len(), |i: int| trim(parts@[i]@)),
{
    let mut out: Vec<String> = Vec::new();
    let mut i: usize = 0;
    let ghost want = Seq::new(parts@.len(), |k: int| trim(parts@[k]@));
    while i < parts.len()
        invariant
            i <= parts@.len(),
            want == Seq::new(parts@.len(), |k: int| trim(parts@[k]@)),
            texts(out@) =~= want.take(i as int),
        decreases parts@.len() - i,
    {
        let ghost before = out@;
        out.push(trimmed(parts[i].as_str()));
        assert(texts(out@) =~= texts(before).push(want[i as int]));
        i = i + 1;
    }
    assert(want.take(i as int) =~= want);
    out
}

/// The metadata that `--meta key=val` pairs describe. The value of `tags` is a
/// list separated by commas.
pub fn parse_metadata(meta: &Vec<String>) -> (r: Result<SecretMetadata, CliError>)
    ensures
        match r {
            Ok(m) => with_pairs(no_metadata(), texts(meta@), 0) == Ok::<
                MetadataView,
                CliErrorView,
            >(m@),
            Err(e) => with_pairs(no_metadata(), texts(meta@), 0) == Err::<
                MetadataView,
                CliErrorView,
            >(e@),
        },
{
    let mut m: SecretMetadata = SecretMetadata::default();
    let ghost all = texts(meta@);
    let mut i: usize = 0;
    while i < meta.len()
        invariant
            i <= meta@.len(),
            all == texts(meta@),
            with_pairs(no_metadata(), all, 0) == with_pairs(m@, all, i as int),
        decreases meta@.len() - i,
    {
        let pair = meta[i].as_str();
        let ghost before = m@;
        match cut_once(pair, '=') {
            None => {
                return Err(
                    invalid_args(
                        "invalid --meta (expected key=val): '".to_owned().concat(pair).concat(
                            "'",
                        ),
                    ),
                );
            },
            Some((k, v)) => {
                let key = trimmed(k.as_str());
                let val = trimmed(v.as_str());
                let key = key.as_str();
                if same(key, "url") {
                    m.url = Some(val);
                } else if same(key, "username") {
                    m.username = Some(val);
                } else if same(key, "chain") {
                    m.chain = Some(val);
                } else if same(key, "issuer") {
                    m.issuer = Some(val);
                } else if same(key, "account") {
                    m.account = Some(val);
                } else if same(key, "tags") {
                    let parts = cut(val.as_str(), ',');
                    assert(parts@.len() == texts(parts@).len());
                    m.tags = trim_all(&parts);
                    assert(texts(m.tags@) =~= tags_of(val@));
                } else {
                    return Err(
                        invalid_args(
                            "unknown metadata key '".to_owned().concat(key).concat(
                                "' (expected: url, username, chain, issuer, account, tags)",
                            ),
                        ),
                    );
                }
            },
        }
        assert(with_pair(before, all[i as int]) == Ok::<MetadataView, CliErrorView>(m@));
        i = i + 1;
    }
    Ok(m)
}

/// What is shown where a QR code could not be drawn: a warning, then the
/// plain text. A failed drawing never fails the command.
#[derive(Debug)]
pub struct QrFallback {
    pub warning: String,
    pub text: String,
}

/// What to show after drawing `data` as a QR code.
pub fn print_qr(data: &str, drawn: &Result<(), String>) -> (r: Result<Option<QrFallback>, CliError>)
    ensures
        match *drawn {
            Ok(_) => r matches Ok(None),
            Err(e) => r matches Ok(Some(f)) && f.text@ == data@ && f.warning@
                == "warn: QR rendering failed ("@ + e@ + "); falling back to plaintext"@,
        },
{
    match drawn {
        Ok(_) => Ok(None),
        Err(e) => Ok(
            Some(
                QrFallback {
                    warning: "warn: QR rendering failed (".to_owned().concat(e.as_str()).concat(
                        "); falling back to plaintext",
                    ),
                    text: data.to_owned(),
                },
            ),
        ),
    }
}

/// The first name that is set gives the value; none that is set gives none.
pub proof fn law_first_set_name_wins(
    env: Map<Seq<char>, Seq<char>>,
    names: Seq<Seq<char>>,
    from: int,
    i: int,
)
    requires
        0 <= from <= i < names.len(),
        env.contains_key(names[i]),
        forall|k: int| from <= k < i ==> !env.contains_key(#[trigger] names[k]),
    ensures
        first_set(env, names, from) == Some(env[names[i]]),
    decreases i - from,
{
    if from < i {
        law_first_set_name_wins(env, names, from + 1, i);
    }
}

/// Nothing is given when none of the names is set.
pub proof fn law_unset_names_give_nothing(
    env: Map<Seq<char>, Seq<char>>,
    names: Seq<Seq<char>>,
    from: int,
)
    requires
        0 <= from,
        forall|k: int| from <= k < names.len() ==> !env.contains_key(#[trigger] names[k]),
    ensures
        first_set(env, names, from) is None,
    decreases names.len() - from,
{
    if from < names.len() {
        law_unset_names_give_nothing(env, names, from + 1);
    }
}

/// The current names come first, the old ones are still read: whichever of them
/// alone is set gives the passphrase, the mnemonic or the key.
pub proof fn law_every_name_is_read(env: Map<Seq<char>, Seq<char>>, p: Seq<char>)
    ensures
        env.contains_key("ONECIPHER_PASSPHRASE"@) ==> first_set(env, passphrase_vars(), 0) == Some(
            env["ONECIPHER_PASSPHRASE"@],
        ),
        env.contains_key("ONECIPHER_MNEMONIC"@) ==> first_set(env, mnemonic_vars(), 0) == Some(
            env["ONECIPHER_MNEMONIC"@],
        ),
        env.contains_key("ONECIPHER_PRIVATE_KEY"@) ==> first_set(env, private_key_vars(), 0)
            == Some(env["ONECIPHER_PRIVATE_KEY"@]),
        first_set(env, passphrase_vars(), 0) is None <==> !env.contains_key(
            "ONECIPHER_PASSPHRASE"@,
        ) && !env.contains_key("OC_PASSPHRASE"@) && !env.contains_key("OWS_PASSPHRASE"@)
            && !env.contains_key("OWX_PASSPHRASE"@) && !env.contains_key("LWS_PASSPHRASE"@),
        first_set(env, mnemonic_vars(), 0) is None <==> !env.contains_key("ONECIPHER_MNEMONIC"@)
            && !env.contains_key("OWS_MNEMONIC"@) && !env.contains_key("LWS_MNEMONIC"@),
        first_set(env, private_key_vars(), 0) is None <==> !env.contains_key(
            "ONECIPHER_PRIVATE_KEY"@,
        ) && !env.contains_key("OWS_PRIVATE_KEY"@) && !env.contains_key("LWS_PRIVATE_KEY"@),
{
    reveal_with_fuel(first_set, 6);
}

/// A credential that is not blank is taken without the white space around it; a
/// blank one is asked for, and refused where nobody can be asked.
pub proof fn law_credentials_are_never_blank(
    value: Option<Seq<char>>,
    interactive: bool,
    prompt: Seq<char>,
    missing: Seq<char>,
)
    ensures
        credential_source(value, interactive, prompt, missing) matches Ok(CredentialView::Given(v))
            ==> v.len() > 0 && value is Some && v == trim(value->0),
        credential_source(value, interactive, prompt, missing) is Err <==> !interactive && (
        value is None || trim(value->0).len() == 0),
        value is Some && trim(value->0).len() > 0 ==> credential_source(
            value,
            interactive,
            prompt,
            missing,
        ) == Ok::<CredentialView, CliErrorView>(CredentialView::Given(trim(value->0))),
        typed_line(prompt, missing) is Ok <==> trim(prompt).len() > 0,
        typed_line(prompt, missing) matches Ok(t) ==> t == trim(prompt),
{
}

/// A token is good until the instant at which it expires, that instant
/// included; one that never expires is always good, and one whose expiry cannot be
/// read never is.
pub proof fn law_tokens_expire(text: Seq<char>, at: i128, now: i128, expired: Seq<char>,
    fault: Seq<char>)
    ensures
        token_verdict(None, now, expired) is Ok,
        token_verdict(Some((text, Ok(at))), now, expired) is Ok <==> now <= at,
        token_verdict(Some((text, Err(fault))), now, expired) is Err,
        token_verdict(Some((text, Ok(at))), now, expired) matches Err(e) ==> e == CliErrorView::Lws(
            CoreFault::ApiKeyExpired,
            expired,
        ),
{
}

proof fn lemma_item_names()
    ensures
        "mnemonic"@ != "password"@,
        "mnemonic"@ != "totp"@,
        "mnemonic"@ != "note"@,
        "mnemonic"@ != "file"@,
        "mnemonic"@ != "private_key"@,
        "mnemonic"@ != "private-key"@,
        "mnemonic"@ != "private key"@,
        "private_key"@ != "password"@,
        "private_key"@ != "totp"@,
        "private_key"@ != "note"@,
        "private_key"@ != "file"@,
        "private-key"@ != "password"@,
        "private-key"@ != "totp"@,
        "private-key"@ != "note"@,
        "private-key"@ != "file"@,
        "private key"@ != "password"@,
        "private key"@ != "totp"@,
        "private key"@ != "note"@,
        "private key"@ != "file"@,
        "password"@ != "totp"@,
        "password"@ != "note"@,
        "password"@ != "file"@,
        "totp"@ != "note"@,
        "totp"@ != "file"@,
        "note"@ != "file"@,
{
    reveal_strlit("mnemonic");
    reveal_strlit("private_key");
    reveal_strlit("private-key");
    reveal_strlit("private key");
    reveal_strlit("password");
    reveal_strlit("totp");
    reveal_strlit("note");
    reveal_strlit("file");
    assert("mnemonic"@.len() == 8 && "mnemonic"@[0] == 'm');
    assert("private_key"@.len() == 11 && "private-key"@.len() == 11 && "private key"@.len() == 11);
    assert("password"@.len() == 8 && "password"@[0] == 'p');
    assert("totp"@.len() == 4 && "totp"@[0] == 't');
    assert("note"@.len() == 4 && "note"@[0] == 'n');
    assert("file"@.len() == 4 && "file"@[0] == 'f');
}

/// Each type of item has its own name, and a private key three spellings;
/// nothing else is a type.
pub proof fn law_item_types_have_their_names(name: Seq<char>)
    ensures
        item_type_of(name) == Some(ItemType::Mnemonic) <==> name == "mnemonic"@,
        item_type_of(name) == Some(ItemType::PrivateKey) <==> name == "private_key"@ || name
            == "private-key"@ || name == "private key"@,
        item_type_of(name) == Some(ItemType::Password) <==> name == "password"@,
        item_type_of(name) == Some(ItemType::Totp) <==> name == "totp"@,
        item_type_of(name) == Some(ItemType::Note) <==> name == "note"@,
        item_type_of(name) == Some(ItemType::File) <==> name == "file"@,
{
    lemma_item_names();
}

proof fn lemma_metadata_keys()
    ensures
        "url"@ != "username"@,
        "url"@ != "chain"@,
        "url"@ != "issuer"@,
        "url"@ != "account"@,
        "url"@ != "tags"@,
        "username"@ != "chain"@,
        "username"@ != "issuer"@,
        "username"@ != "account"@,
        "username"@ != "tags"@,
        "chain"@ != "issuer"@,
        "chain"@ != "account"@,
        "chain"@ != "tags"@,
        "issuer"@ != "account"@,
        "issuer"@ != "tags"@,
        "account"@ != "tags"@,
{
    reveal_strlit("url");
    reveal_strlit("username");
    reveal_strlit("chain");
    reveal_strlit("issuer");
    reveal_strlit("account");
    reveal_strlit("tags");
    assert("url"@.len() == 3 && "username"@.len() == 8 && "chain"@.len() == 5 && "issuer"@.len()
        == 6 && "account"@.len() == 7 && "tags"@.len() == 4);
}

/// A pair sets the metadata that its key names to its value, both without the
/// white space around them, and leaves the rest; an unknown key is refused.
pub proof fn law_pairs_set_what_they_name(m: MetadataView, k: Seq<char>, v: Seq<char>)
    requires
        !k.contains('='),
    ensures
        ({
            let r = with_pair(m, k + seq!['='] + v);
            &&& trim(k) == "url"@ ==> (r matches Ok(n) && n.url == Some(trim(v)) && n.username
                == m.username && n.chain == m.chain && n.issuer == m.issuer && n.account
                == m.account && n.tags == m.tags)
            &&& trim(k) == "username"@ ==> (r matches Ok(n) && n.username == Some(trim(v)) && n.url
                == m.url && n.chain == m.chain && n.issuer == m.issuer && n.account == m.account
                && n.tags == m.tags)
            &&& trim(k) == "chain"@ ==> (r matches Ok(n) && n.chain == Some(trim(v)) && n.url
                == m.url && n.username == m.username && n.issuer == m.issuer && n.account
                == m.account && n.tags == m.tags)
            &&& trim(k) == "issuer"@ ==> (r matches Ok(n) && n.issuer == Some(trim(v)) && n.url
                == m.url && n.username == m.username && n.chain == m.chain && n.account
                == m.account && n.tags == m.tags)
            &&& trim(k) == "account"@ ==> (r matches Ok(n) && n.account == Some(trim(v)) && n.url
                == m.url && n.username == m.username && n.chain == m.chain && n.issuer == m.issuer
                && n.tags == m.tags)
            &&& trim(k) == "tags"@ ==> (r matches Ok(n) && n.tags.len() == split(
                trim(v),
                ',',
            ).len() && n.url == m.url && n.username == m.username && n.chain == m.chain && n.issuer
                == m.issuer && n.account == m.account)
            &&& r is Ok ==> trim(k) == "url"@ || trim(k) == "username"@ || trim(k) == "chain"@
                || trim(k) == "issuer"@ || trim(k) == "account"@ || trim(k) == "tags"@
        }),
        with_pair(m, k) is Err,
{
    law_sides_are_cut_apart(k, '=', v);
    law_cutting_gives_both_sides(k, '=');
    lemma_metadata_keys();
}

/// Pairs take effect one after the other; the first that is wrong stops them.
pub proof fn law_pairs_take_effect_in_order(m: MetadataView, pairs: Seq<Seq<char>>, p: Seq<char>)
    ensures
        with_pairs(m, pairs.push(p), 0) == match with_pairs(m, pairs, 0) {
            Ok(n) => with_pair(n, p),
            Err(e) => Err(e),
        },
{
    lemma_pairs_from(m, pairs, p, 0);
}

proof fn lemma_pairs_from(m: MetadataView, pairs: Seq<Seq<char>>, p: Seq<char>, i: int)
    requires
        0 <= i <= pairs.len(),
    ensures
        with_pairs(m, pairs.push(p), i) == match with_pairs(m, pairs, i) {
            Ok(n) => with_pair(n, p),
            Err(e) => Err(e),
        },
    decreases pairs.len() - i,
{
    let all = pairs.push(p);
    if i < pairs.len() {
        assert(all[i] == pairs[i]);
        if let Ok(n) = with_pair(m, pairs[i]) {
            lemma_pairs_from(n, pairs, p, i + 1);
        }
    } else {
        assert(all[i] == p);
        reveal_with_fuel(with_pairs, 2);
    }
}

/// What is read of the value in a contract is the value itself, each part under its
/// own name.
pub proof fn law_credential_views_keep_each_value(x: Credential)
    ensures
        x matches Credential::Given(s) ==> x@ == CredentialView::Given(s@),
        x matches Credential::Ask(s) ==> x@ == CredentialView::Ask(s@),
{
}

/// What is read of the value in a contract is the value itself, each part under its
/// own name.
pub proof fn law_secret_metadata_views_keep_each_value(x: SecretMetadata)
    ensures
        x@.url == opt_text(x.url),
        x@.username == opt_text(x.username),
        x@.chain == opt_text(x.chain),
        x@.issuer == opt_text(x.issuer),
        x@.account == opt_text(x.account),
        x@.tags == texts(x.tags@),
{
}

} // verus!
