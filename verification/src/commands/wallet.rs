//! `wallet`: creating, importing, exporting and changing wallets.
use vstd::prelude::*;

use crate::codec::{
    hex_bytes, hex_decode, hex_encode, hex_fault, hex_text, is_hex, law_hex_round_trips, strip_0x,
    without_0x,
};
use crate::commands::sbom::text_at;
use crate::commands::{
    credential_result, first_set, passphrase_vars, peek_passphrase, take_env, text_result, unit_result,
    Credential, CredentialView,
};
use crate::curve::{ed_public, ed_public_key, secp_public, secp_public_key};
use crate::environment::{value_of, Environment};
use crate::error::{invalid, invalid_args, CliError, CliErrorView};
use crate::json::{json_document, member, parse, text_value};
use crate::text::{
    lemma_shows, lemma_shows_first, lemma_shows_last, lemma_shows_more, lemma_shows_more4, opt_text,
    same, shows, starts_with, texts, trim, trimmed,
};

verus! {

// ---------------------------------------------------------------------------
// Showing a wallet
// ---------------------------------------------------------------------------

/// An account of a wallet.
#[derive(Debug)]
pub struct WalletAccount {
    pub chain_id: String,
    pub address: String,
    pub derivation_path: String,
    /// The name of the chain, where it is known.
    pub chain_name: Option<String>,
}

/// A wallet.
#[derive(Debug)]
pub struct WalletInfo {
    pub id: String,
    pub name: String,
    pub created_at: String,
    pub accounts: Vec<WalletAccount>,
}

/// An account of a new wallet as it is shown.
pub open spec fn account_text(a: WalletAccount) -> Seq<char> {
    "  "@ + a.chain_id@ + " → "@ + a.address@ + "\n"@ + if a.derivation_path@.len() > 0 {
        "    Path: "@ + a.derivation_path@ + "\n"@
    } else {
        Seq::empty()
    }
}

/// The accounts of a new wallet as they are shown.
pub open spec fn accounts_text(v: Seq<WalletAccount>) -> Seq<char>
    decreases v.len(),
{
    if v.len() == 0 {
        Seq::empty()
    } else {
        accounts_text(v.drop_last()) + account_text(v.last())
    }
}

fn show_accounts(v: &Vec<WalletAccount>) -> (r: String)
    ensures
        r@ == accounts_text(v@),
{
    let mut out = String::new();
    let mut i: usize = 0;
    assert(v@.take(0) =~= Seq::<WalletAccount>::empty());
    while i < v.len()
        invariant
            i <= v@.len(),
            out@ == accounts_text(v@.take(i as int)),
        decreases v@.len() - i,
    {
        assert(v@.take(i + 1).drop_last() =~= v@.take(i as int));
        let a = &v[i];
        let path = if a.derivation_path.as_str().unicode_len() > 0 {
            "    Path: ".to_owned().concat(a.derivation_path.as_str()).concat("\n")
        } else {
            String::new()
        };
        let line = "  ".to_owned().concat(a.chain_id.as_str()).concat(" → ").concat(
            a.address.as_str(),
        ).concat("\n").concat(path.as_str());
        out = out.concat(line.as_str());
        i = i + 1;
    }
    assert(v@.take(i as int) =~= v@);
    out
}

/// What is printed of a created wallet, without its mnemonic.
pub fn create(w: &WalletInfo, name: &str) -> (r: String)
    ensures
        r@ == "Wallet created: "@ + w.id@ + "\nName:           "@ + name@ + "\n\n"@
            + accounts_text(w.accounts@),
{
    "Wallet created: ".to_owned().concat(w.id.as_str()).concat("\nName:           ").concat(
        name,
    ).concat("\n\n").concat(show_accounts(&w.accounts).as_str())
}

/// What is said about the mnemonic of a created wallet: a warning in front of
/// it when it is shown, and where it went otherwise.
pub fn mnemonic_notice(show: bool) -> (r: Vec<String>)
    ensures
        texts(r@) == if show {
            seq![
                ""@,
                "⚠️  WARNING: The mnemonic below provides FULL ACCESS to this wallet."@,
                "⚠️  Store it securely offline. It will NOT be shown again."@,
                ""@,
            ]
        } else {
            seq![
                ""@,
                "Mnemonic encrypted and saved to vault."@,
                "Use --show-mnemonic at creation time if you need a backup copy."@,
            ]
        },
{
    let mut out: Vec<String> = Vec::new();
    out.push("".to_owned());
    if show {
        out.push("⚠️  WARNING: The mnemonic below provides FULL ACCESS to this wallet.".to_owned());
        out.push("⚠️  Store it securely offline. It will NOT be shown again.".to_owned());
        out.push("".to_owned());
        assert(texts(out@) =~= seq![
            ""@,
            "⚠️  WARNING: The mnemonic below provides FULL ACCESS to this wallet."@,
            "⚠️  Store it securely offline. It will NOT be shown again."@,
            ""@,
        ]);
    } else {
        out.push("Mnemonic encrypted and saved to vault.".to_owned());
        out.push("Use --show-mnemonic at creation time if you need a backup copy.".to_owned());
        assert(texts(out@) =~= seq![
            ""@,
            "Mnemonic encrypted and saved to vault."@,
            "Use --show-mnemonic at creation time if you need a backup copy."@,
        ]);
    }
    out
}

/// What is printed of an imported wallet.
pub fn imported(w: &WalletInfo, name: &str) -> (r: String)
    ensures
        r@ == "Wallet imported: "@ + w.id@ + "\nName:            "@ + name@ + "\n\n"@
            + accounts_text(w.accounts@),
{
    "Wallet imported: ".to_owned().concat(w.id.as_str()).concat("\nName:            ").concat(
        name,
    ).concat("\n\n").concat(show_accounts(&w.accounts).as_str())
}

/// An account as it is listed, with the name of its chain.
pub open spec fn listed_account(a: WalletAccount) -> Seq<char> {
    "  "@ + a.chain_id@ + (match opt_text(a.chain_name) {
        Some(n) => " ("@ + n + ")"@,
        None => Seq::empty(),
    }) + " → "@ + a.address@ + "\n"@
}

/// The accounts as they are listed.
pub open spec fn listed_accounts(v: Seq<WalletAccount>) -> Seq<char>
    decreases v.len(),
{
    if v.len() == 0 {
        Seq::empty()
    } else {
        listed_accounts(v.drop_last()) + listed_account(v.last())
    }
}

fn show_listed_accounts(v: &Vec<WalletAccount>) -> (r: String)
    ensures
        r@ == listed_accounts(v@),
{
    let mut out = String::new();
    let mut i: usize = 0;
    assert(v@.take(0) =~= Seq::<WalletAccount>::empty());
    while i < v.len()
        invariant
            i <= v@.len(),
            out@ == listed_accounts(v@.take(i as int)),
        decreases v@.len() - i,
    {
        assert(v@.take(i + 1).drop_last() =~= v@.take(i as int));
        let a = &v[i];
        let name = match &a.chain_name {
            Some(n) => " (".to_owned().concat(n.as_str()).concat(")"),
            None => String::new(),
        };
        let line = "  ".to_owned().concat(a.chain_id.as_str()).concat(name.as_str()).concat(
            " → ",
        ).concat(a.address.as_str()).concat("\n");
        out = out.concat(line.as_str());
        i = i + 1;
    }
    assert(v@.take(i as int) =~= v@);
    out
}

/// A wallet as it is listed.
pub open spec fn wallet_text(w: WalletInfo) -> Seq<char> {
    "ID:      "@ + w.id@ + "\nName:    "@ + w.name@ + "\nSecured: ✓ (encrypted)\n"@
        + listed_accounts(w.accounts@) + "Created: "@ + w.created_at@ + "\n\n"@
}

/// The wallets as they are listed.
pub open spec fn wallets_text(v: Seq<WalletInfo>) -> Seq<char>
    decreases v.len(),
{
    if v.len() == 0 {
        Seq::empty()
    } else {
        wallets_text(v.drop_last()) + wallet_text(v.last())
    }
}

/// What `wallet list` prints.
pub fn list(wallets: &Vec<WalletInfo>) -> (r: String)
    ensures
        r@ == if wallets@.len() == 0 {
            "No wallets found.\n"@
        } else {
            wallets_text(wallets@)
        },
{
    if wallets.len() == 0 {
        return "No wallets found.\n".to_owned();
    }
    let mut out = String::new();
    let mut i: usize = 0;
    assert(wallets@.take(0) =~= Seq::<WalletInfo>::empty());
    while i < wallets.len()
        invariant
            i <= wallets@.len(),
            out@ == wallets_text(wallets@.take(i as int)),
        decreases wallets@.len() - i,
    {
        assert(wallets@.take(i + 1).drop_last() =~= wallets@.take(i as int));
        let w = &wallets[i];
        let text = "ID:      ".to_owned().concat(w.id.as_str()).concat("\nName:    ").concat(
            w.name.as_str(),
        ).concat("\nSecured: ✓ (encrypted)\n").concat(
            show_listed_accounts(&w.accounts).as_str(),
        ).concat("Created: ").concat(w.created_at.as_str()).concat("\n\n");
        out = out.concat(text.as_str());
        i = i + 1;
    }
    assert(wallets@.take(i as int) =~= wallets@);
    out
}

// ---------------------------------------------------------------------------
// The passphrase
// ---------------------------------------------------------------------------

/// Where the current passphrase comes from: the flag, the environment, or the
/// terminal.
pub open spec fn old_source(
    flag: Option<Seq<char>>,
    env: Map<Seq<char>, Seq<char>>,
    tty: bool,
) -> Result<CredentialView, CliErrorView> {
    match flag {
        Some(p) => Ok(CredentialView::Given(p)),
        None => match first_set(env, passphrase_vars(), 0) {
            Some(p) => Ok(CredentialView::Given(p)),
            None => if tty {
                Ok(CredentialView::Ask("Current passphrase (empty for none): "@))
            } else {
                Err(
                    CliErrorView::InvalidArgs(
                        "wallet change-password requires an interactive terminal, or provide --passphrase and --new-passphrase (or set ONECIPHER_PASSPHRASE / ONECIPHER_NEW_PASSPHRASE)"@,
                    ),
                )
            },
        },
    }
}

/// Where the current passphrase comes from.
pub fn old_passphrase(flag: &Option<String>, env: &Environment, tty: bool) -> (r: Result<
    Credential,
    CliError,
>)
    ensures
        credential_result(r) == old_source(opt_text(*flag), env@, tty),
{
    if let Some(p) = flag {
        return Ok(Credential::Given(p.clone()));
    }
    if let Some(p) = peek_passphrase(env) {
        return Ok(Credential::Given(p));
    }
    if tty {
        return Ok(Credential::Ask("Current passphrase (empty for none): ".to_owned()));
    }
    Err(
        invalid(
            "wallet change-password requires an interactive terminal, or provide --passphrase and --new-passphrase (or set ONECIPHER_PASSPHRASE / ONECIPHER_NEW_PASSPHRASE)",
        ),
    )
}

/// Where the new passphrase comes from.
pub open spec fn new_source(
    flag: Option<Seq<char>>,
    env: Map<Seq<char>, Seq<char>>,
    tty: bool,
) -> Result<CredentialView, CliErrorView> {
    match flag {
        Some(p) => Ok(CredentialView::Given(p)),
        None => match value_of(env, "ONECIPHER_NEW_PASSPHRASE"@) {
            Some(p) => Ok(CredentialView::Given(p)),
            None => if tty {
                Ok(CredentialView::Ask("New passphrase (empty for none): "@))
            } else {
                Err(
                    CliErrorView::InvalidArgs(
                        "new passphrase missing — provide --new-passphrase or set ONECIPHER_NEW_PASSPHRASE"@,
                    ),
                )
            },
        },
    }
}

/// Where the new passphrase comes from; what the environment gives is removed
/// from it.
pub fn new_passphrase(flag: &Option<String>, env: &mut Environment, tty: bool) -> (r: Result<
    Credential,
    CliError,
>)
    ensures
        credential_result(r) == new_source(opt_text(*flag), old(env)@, tty),
        final(env)@ == if flag is Some {
            old(env)@
        } else {
            old(env)@.remove("ONECIPHER_NEW_PASSPHRASE"@)
        },
{
    if let Some(p) = flag {
        return Ok(Credential::Given(p.clone()));
    }
    if let Some(p) = take_env(env, "ONECIPHER_NEW_PASSPHRASE") {
        return Ok(Credential::Given(p));
    }
    if tty {
        return Ok(Credential::Ask("New passphrase (empty for none): ".to_owned()));
    }
    Err(
        invalid(
            "new passphrase missing — provide --new-passphrase or set ONECIPHER_NEW_PASSPHRASE",
        ),
    )
}

/// Whether the new passphrase is asked for a second time: at a terminal, when
/// it did not come from the flag.
pub fn asks_confirmation(tty: bool, flag: &Option<String>) -> (r: bool)
    ensures
        r == (tty && flag is None),
{
    tty && flag.is_none()
}

/// The verdict over a new passphrase.
pub open spec fn change_verdict(
    old_pass: Seq<char>,
    new_pass: Seq<char>,
    confirmation: Option<Seq<char>>,
) -> Result<(), CliErrorView> {
    if confirmation matches Some(c) && c != new_pass {
        Err(CliErrorView::InvalidArgs("passphrases do not match"@))
    } else if old_pass == new_pass {
        Err(CliErrorView::InvalidArgs("new passphrase must differ from current passphrase"@))
    } else {
        Ok(())
    }
}

/// The verdict over a new passphrase: confirmed, where that was asked for, and
/// another one than before.
pub fn change_password(old_pass: &str, new_pass: &str, confirmation: &Option<String>) -> (r: Result<
    (),
    CliError,
>)
    ensures
        unit_result(r) == change_verdict(old_pass@, new_pass@, opt_text(*confirmation)),
{
    if let Some(c) = confirmation {
        if !same(new_pass, c.as_str()) {
            return Err(invalid("passphrases do not match"));
        }
    }
    if same(old_pass, new_pass) {
        return Err(invalid("new passphrase must differ from current passphrase"));
    }
    Ok(())
}

/// The current passphrase did not open the wallet.
pub fn incorrect_passphrase() -> (e: CliError)
    ensures
        e@ == CliErrorView::InvalidArgs("incorrect current passphrase"@),
{
    invalid("incorrect current passphrase")
}

/// What is printed when the passphrase was changed.
pub fn changed_message(name: &str) -> (r: String)
    ensures
        r@ == "Password changed successfully for wallet '"@ + name@ + "'"@,
{
    "Password changed successfully for wallet '".to_owned().concat(name).concat("'")
}

// ---------------------------------------------------------------------------
// Exporting
// ---------------------------------------------------------------------------

/// Exporting needs somebody to ask, or a passphrase at hand.
pub fn export_gate(interactive: bool, has_passphrase: bool, public_key: bool) -> (r: Result<
    (),
    CliError,
>)
    ensures
        unit_result(r) == if interactive || has_passphrase {
            Ok(())
        } else if public_key {
            Err(
                CliErrorView::InvalidArgs(
                    "wallet export --public-key requires an interactive terminal, or set ONECIPHER_PASSPHRASE"@,
                ),
            )
        } else {
            Err(
                CliErrorView::InvalidArgs(
                    "wallet export requires an interactive terminal, or set ONECIPHER_PASSPHRASE (do not pipe stdin without a passphrase)"@,
                ),
            )
        },
{
    if interactive || has_passphrase {
        return Ok(());
    }
    if public_key {
        Err(
            invalid(
                "wallet export --public-key requires an interactive terminal, or set ONECIPHER_PASSPHRASE",
            ),
        )
    } else {
        Err(
            invalid(
                "wallet export requires an interactive terminal, or set ONECIPHER_PASSPHRASE (do not pipe stdin without a passphrase)",
            ),
        )
    }
}

/// Exported material is a pair of keys as JSON, and not a mnemonic.
pub open spec fn is_pair(material: Seq<char>) -> bool {
    "{"@.is_prefix_of(material)
}

/// Whether exported material is a pair of keys.
pub fn is_key_pair(material: &str) -> (r: bool)
    ensures
        r == is_pair(material@),
{
    starts_with(material, "{")
}

/// The warning in front of exported material.
pub open spec fn export_lines(material: Seq<char>) -> Seq<Seq<char>> {
    seq![
        ""@,
        if is_pair(material) {
            "WARNING: The private key below provides FULL ACCESS to this wallet."@
        } else {
            "WARNING: The mnemonic below provides FULL ACCESS to this wallet."@
        },
        "Do not share it. Store it securely offline."@,
        ""@,
    ]
}

/// The warning in front of exported material.
pub fn export(material: &str) -> (r: Vec<String>)
    ensures
        texts(r@) == export_lines(material@),
{
    let mut out: Vec<String> = Vec::new();
    out.push("".to_owned());
    if is_key_pair(material) {
        out.push("WARNING: The private key below provides FULL ACCESS to this wallet.".to_owned());
    } else {
        out.push("WARNING: The mnemonic below provides FULL ACCESS to this wallet.".to_owned());
    }
    out.push("Do not share it. Store it securely offline.".to_owned());
    out.push("".to_owned());
    assert(texts(out@) =~= export_lines(material@));
    out
}

/// The public key of a pair of keys, in hexadecimal.
pub open spec fn pair_public_key(material: Seq<char>, short: bool) -> Result<
    Seq<char>,
    CliErrorView,
> {
    match json_document(material) {
        Err(m) => Err(CliErrorView::Json(m)),
        Ok(v) => match text_at(v, "secp256k1"@) {
            None => Err(CliErrorView::InvalidArgs("missing secp256k1 key"@)),
            Some(h) => if !is_hex(without_0x(h)) {
                Err(CliErrorView::InvalidArgs("invalid hex: "@ + hex_fault(without_0x(h))))
            } else {
                match secp_public(hex_bytes(without_0x(h)), short) {
                    Ok(k) => Ok(hex_text(k)),
                    Err(m) => Err(CliErrorView::InvalidArgs("invalid private key: "@ + m)),
                }
            },
        },
    }
}

/// The public key of a pair of keys, in hexadecimal.
pub fn export_public_key(material: &str, short: bool) -> (r: Result<String, CliError>)
    ensures
        text_result(r) == pair_public_key(material@, short),
{
    let doc = match parse(material) {
        Ok(d) => d,
        Err(m) => return Err(CliError::Json(m)),
    };
    let found: Option<String> = match member(&doc, "secp256k1") {
        Some(x) => text_value(&x),
        None => None,
    };
    let h = match found {
        Some(h) => h,
        None => return Err(invalid("missing secp256k1 key")),
    };
    let secret = match hex_decode(strip_0x(h.as_str()).as_str()) {
        Ok(b) => b,
        Err(e) => {
            return Err(invalid_args("invalid hex: ".to_owned().concat(e.as_str())));
        },
    };
    match secp_public_key(secret.as_slice(), short) {
        Ok(k) => Ok(hex_encode(k.as_slice())),
        Err(m) => Err(invalid_args("invalid private key: ".to_owned().concat(m.as_str()))),
    }
}

/// The curves of the chains.
#[derive(Clone, Copy, Debug, PartialEq, Eq, Structural)]
pub enum Curve {
    Secp256k1,
    Ed25519,
}

/// The public key of a derived key, in hexadecimal.
pub open spec fn derived_public_key(curve: Curve, key: Seq<u8>, short: bool) -> Result<
    Seq<char>,
    CliErrorView,
> {
    match curve {
        Curve::Secp256k1 => match secp_public(key, short) {
            Ok(k) => Ok(hex_text(k)),
            Err(m) => Err(CliErrorView::InvalidArgs("invalid key: "@ + m)),
        },
        Curve::Ed25519 => if key.len() == 32 {
            Ok(hex_text(ed_public(key)))
        } else {
            Err(CliErrorView::InvalidArgs("ed25519 key must be 32 bytes"@))
        },
    }
}

/// The public key of a derived key, in hexadecimal.
pub fn derived_key(curve: Curve, key: &[u8], short: bool) -> (r: Result<String, CliError>)
    ensures
        text_result(r) == derived_public_key(curve, key@, short),
{
    match curve {
        Curve::Secp256k1 => match secp_public_key(key, short) {
            Ok(k) => Ok(hex_encode(k.as_slice())),
            Err(m) => Err(invalid_args("invalid key: ".to_owned().concat(m.as_str()))),
        },
        Curve::Ed25519 => {
            if key.len() != 32 {
                return Err(invalid("ed25519 key must be 32 bytes"));
            }
            Ok(hex_encode(ed_public_key(key).as_slice()))
        },
    }
}

// ---------------------------------------------------------------------------
// Importing
// ---------------------------------------------------------------------------

/// What is imported at the terminal.
#[derive(Clone, Copy, Debug, PartialEq, Eq, Structural)]
pub enum ImportKind {
    Mnemonic,
    PrivateKey,
}

/// Importing at the terminal needs one.
pub fn import_interactive(interactive: bool) -> (r: Result<(), CliError>)
    ensures
        unit_result(r) == if interactive {
            Ok(())
        } else {
            Err(
                CliErrorView::InvalidArgs("interactive import requires an interactive terminal"@),
            )
        },
{
    if interactive {
        Ok(())
    } else {
        Err(invalid("interactive import requires an interactive terminal"))
    }
}

/// What was chosen; an empty line is the first choice.
pub open spec fn chosen(line: Seq<char>) -> Result<ImportKind, CliErrorView> {
    let c = trim(line);
    if c.len() == 0 || c == "1"@ {
        Ok(ImportKind::Mnemonic)
    } else if c == "2"@ {
        Ok(ImportKind::PrivateKey)
    } else {
        Err(CliErrorView::InvalidArgs("invalid choice: '"@ + c + "'"@))
    }
}

/// What was chosen.
pub fn import_choice(line: &str) -> (r: Result<ImportKind, CliError>)
    ensures
        match r {
            Ok(k) => chosen(line@) == Ok::<ImportKind, CliErrorView>(k),
            Err(e) => chosen(line@) == Err::<ImportKind, CliErrorView>(e@),
        },
{
    let c = trimmed(line);
    if c.as_str().unicode_len() == 0 || same(c.as_str(), "1") {
        Ok(ImportKind::Mnemonic)
    } else if same(c.as_str(), "2") {
        Ok(ImportKind::PrivateKey)
    } else {
        Err(invalid_args("invalid choice: '".to_owned().concat(c.as_str()).concat("'")))
    }
}

/// What was typed, without white space around it.
pub fn typed_secret(kind: ImportKind, line: &str) -> (r: Result<String, CliError>)
    ensures
        text_result(r) == if trim(line@).len() > 0 {
            Ok(trim(line@))
        } else {
            match kind {
                ImportKind::Mnemonic => Err(
                    CliErrorView::InvalidArgs("mnemonic cannot be empty"@),
                ),
                ImportKind::PrivateKey => Err(
                    CliErrorView::InvalidArgs("private key cannot be empty"@),
                ),
            }
        },
{
    let t = trimmed(line);
    if t.as_str().unicode_len() == 0 {
        return match kind {
            ImportKind::Mnemonic => Err(invalid("mnemonic cannot be empty")),
            ImportKind::PrivateKey => Err(invalid("private key cannot be empty")),
        };
    }
    Ok(t)
}

/// Keys of single curves, from the environment.
#[derive(Debug)]
pub struct CurveKeys {
    pub secp256k1: Option<String>,
    pub ed25519: Option<String>,
}

/// A value that is not empty.
pub open spec fn filled(o: Option<Seq<char>>) -> Option<Seq<char>> {
    match o {
        Some(s) => if s.len() > 0 {
            Some(s)
        } else {
            None
        },
        None => None,
    }
}

/// The value of the first of two variables that is set.
pub open spec fn either(env: Map<Seq<char>, Seq<char>>, a: Seq<char>, b: Seq<char>) -> Option<
    Seq<char>,
> {
    if env.contains_key(a) {
        Some(env[a])
    } else {
        value_of(env, b)
    }
}

/// The environment after the first of two variables was taken.
pub open spec fn without_either(
    env: Map<Seq<char>, Seq<char>>,
    a: Seq<char>,
    b: Seq<char>,
) -> Map<Seq<char>, Seq<char>> {
    if env.contains_key(a) {
        env.remove(a)
    } else {
        env.remove(b)
    }
}

fn take_either(env: &mut Environment, a: &str, b: &str) -> (r: Option<String>)
    ensures
        opt_text(r) == either(old(env)@, a@, b@),
        final(env)@ == without_either(old(env)@, a@, b@),
{
    let ghost start = env@;
    let first = take_env(env, a);
    if first.is_some() {
        return first;
    }
    assert(env@ =~= start);
    take_env(env, b)
}

fn keep_filled(o: Option<String>) -> (r: Option<String>)
    ensures
        opt_text(r) == filled(opt_text(o)),
{
    match o {
        Some(s) => {
            if s.as_str().unicode_len() > 0 {
                Some(s)
            } else {
                None
            }
        },
        None => None,
    }
}

/// The keys of single curves; what is read is removed from the environment.
pub fn take_curve_keys(env: &mut Environment) -> (k: CurveKeys)
    ensures
        ({
            let after = without_either(
                old(env)@,
                "ONECIPHER_SECP256K1_KEY"@,
                "OWS_SECP256K1_KEY"@,
            );
            &&& opt_text(k.secp256k1) == filled(
                either(old(env)@, "ONECIPHER_SECP256K1_KEY"@, "OWS_SECP256K1_KEY"@),
            )
            &&& opt_text(k.ed25519) == filled(
                either(after, "ONECIPHER_ED25519_KEY"@, "OWS_ED25519_KEY"@),
            )
            &&& final(env)@ == without_either(after, "ONECIPHER_ED25519_KEY"@, "OWS_ED25519_KEY"@)
        }),
{
    let secp256k1 = take_either(env, "ONECIPHER_SECP256K1_KEY", "OWS_SECP256K1_KEY");
    let ed25519 = take_either(env, "ONECIPHER_ED25519_KEY", "OWS_ED25519_KEY");
    CurveKeys { secp256k1: keep_filled(secp256k1), ed25519: keep_filled(ed25519) }
}

/// What is imported.
#[derive(Clone, Copy, Debug, PartialEq, Eq, Structural)]
pub enum ImportSource {
    /// A mnemonic.
    Mnemonic,
    /// A private key that is read.
    PrivateKey,
    /// The keys of both curves, which are at hand.
    CurveKeys,
}

/// What is imported, from the flags and from which keys are at hand.
pub open spec fn import_source(mnemonic: bool, private_key: bool, secp: bool, ed: bool) -> Result<
    ImportSource,
    CliErrorView,
> {
    if mnemonic && (private_key || secp || ed) {
        Err(
            CliErrorView::InvalidArgs(
                "cannot combine --mnemonic with --private-key or curve-specific keys"@,
            ),
        )
    } else if mnemonic {
        Ok(ImportSource::Mnemonic)
    } else if secp && ed {
        Ok(ImportSource::CurveKeys)
    } else if private_key {
        Ok(ImportSource::PrivateKey)
    } else {
        Err(
            CliErrorView::InvalidArgs(
                "specify --mnemonic, --private-key, or set ONECIPHER_SECP256K1_KEY and ONECIPHER_ED25519_KEY"@,
            ),
        )
    }
}

/// What is imported: exactly one of a mnemonic, a private key, or the keys of
/// both curves.
pub fn import(mnemonic: bool, private_key: bool, keys: &CurveKeys) -> (r: Result<
    ImportSource,
    CliError,
>)
    ensures
        match r {
            Ok(s) => import_source(
                mnemonic,
                private_key,
                keys.secp256k1 is Some,
                keys.ed25519 is Some,
            ) == Ok::<ImportSource, CliErrorView>(s),
            Err(e) => import_source(
                mnemonic,
                private_key,
                keys.secp256k1 is Some,
                keys.ed25519 is Some,
            ) == Err::<ImportSource, CliErrorView>(e@),
        },
{
    let secp = keys.secp256k1.is_some();
    let ed = keys.ed25519.is_some();
    if mnemonic && (private_key || secp || ed) {
        return Err(
            invalid("cannot combine --mnemonic with --private-key or curve-specific keys"),
        );
    }
    if mnemonic {
        Ok(ImportSource::Mnemonic)
    } else if secp && ed {
        Ok(ImportSource::CurveKeys)
    } else if private_key {
        Ok(ImportSource::PrivateKey)
    } else {
        Err(
            invalid(
                "specify --mnemonic, --private-key, or set ONECIPHER_SECP256K1_KEY and ONECIPHER_ED25519_KEY",
            ),
        )
    }
}

// ---------------------------------------------------------------------------
// Deleting and renaming
// ---------------------------------------------------------------------------

/// Deleting has to be confirmed.
pub fn check_delete(confirm: bool) -> (r: Result<(), CliError>)
    ensures
        unit_result(r) == if confirm {
            Ok(())
        } else {
            Err(CliErrorView::InvalidArgs("--confirm is required to delete a wallet"@))
        },
{
    if confirm {
        Ok(())
    } else {
        Err(invalid("--confirm is required to delete a wallet"))
    }
}

/// What is printed when a wallet was deleted.
pub fn delete(id: &str, name: &str) -> (r: String)
    ensures
        r@ == "Wallet deleted: "@ + id@ + " ("@ + name@ + ")"@,
{
    "Wallet deleted: ".to_owned().concat(id).concat(" (").concat(name).concat(")")
}

/// What is printed when a wallet got another name.
pub fn rename(old_name: &str, new_name: &str) -> (r: String)
    ensures
        r@ == "Wallet renamed: '"@ + old_name@ + "' -> '"@ + new_name@ + "'"@,
{
    "Wallet renamed: '".to_owned().concat(old_name).concat("' -> '").concat(new_name).concat("'")
}

/// A passphrase is never changed to itself.
pub proof fn law_changed_passphrases_differ(
    old_pass: Seq<char>,
    new_pass: Seq<char>,
    confirmation: Option<Seq<char>>,
)
    ensures
        change_verdict(old_pass, new_pass, confirmation) is Ok ==> old_pass != new_pass,
{
}

/// A passphrase is changed exactly when the new one differs from the old one
/// and, where it was typed again, was typed the same.
pub proof fn law_passphrase_changes_are_confirmed(
    old_pass: Seq<char>,
    new_pass: Seq<char>,
    confirmation: Option<Seq<char>>,
)
    ensures
        change_verdict(old_pass, new_pass, confirmation) is Ok <==> old_pass != new_pass && (
        confirmation is None || confirmation == Some(new_pass)),
{
}

/// What a wallet is imported from: a mnemonic only on its own, the keys of both
/// curves whenever both are there, and a private key otherwise when it is asked
/// for.
pub proof fn law_imports_have_one_source(mnemonic: bool, private_key: bool, secp: bool, ed: bool)
    ensures
        import_source(mnemonic, private_key, secp, ed) == Ok::<ImportSource, CliErrorView>(
            ImportSource::Mnemonic,
        ) <==> mnemonic && !private_key && !secp && !ed,
        import_source(mnemonic, private_key, secp, ed) == Ok::<ImportSource, CliErrorView>(
            ImportSource::CurveKeys,
        ) <==> !mnemonic && secp && ed,
        import_source(mnemonic, private_key, secp, ed) == Ok::<ImportSource, CliErrorView>(
            ImportSource::PrivateKey,
        ) <==> !mnemonic && private_key && !(secp && ed),
{
}

/// The public key of a stored pair is that of its secp256k1 secret: the digits
/// that are shown stand for the key, and the same secret gives the same key when
/// it is derived.
pub proof fn law_public_keys_belong_to_the_secret(material: Seq<char>, short: bool)
    ensures
        pair_public_key(material, short) matches Ok(t) ==> (json_document(material) matches Ok(v)
            && (text_at(v, "secp256k1"@) matches Some(h) && is_hex(without_0x(h)) && secp_public(
            hex_bytes(without_0x(h)),
            short,
        ) == Ok::<Seq<u8>, Seq<char>>(hex_bytes(t)) && derived_public_key(
            Curve::Secp256k1,
            hex_bytes(without_0x(h)),
            short,
        ) == Ok::<Seq<char>, CliErrorView>(t))),
{
    if pair_public_key(material, short) is Ok {
        let v = json_document(material)->Ok_0;
        let h = text_at(v, "secp256k1"@)->0;
        law_hex_round_trips(secp_public(hex_bytes(without_0x(h)), short)->Ok_0);
    }
}

/// A derived key is that of its curve; the keys of Ed25519 are 32 bytes and
/// have one form.
pub proof fn law_derived_keys_are_of_their_curve(key: Seq<u8>, short: bool)
    ensures
        derived_public_key(Curve::Ed25519, key, short) is Ok <==> key.len() == 32,
        derived_public_key(Curve::Ed25519, key, short) matches Ok(t) ==> hex_bytes(t) == ed_public(
            key,
        ),
        derived_public_key(Curve::Ed25519, key, short) == derived_public_key(
            Curve::Ed25519,
            key,
            !short,
        ),
        derived_public_key(Curve::Secp256k1, key, short) matches Ok(t) ==> secp_public(key, short)
            == Ok::<Seq<u8>, Seq<char>>(hex_bytes(t)),
        derived_public_key(Curve::Secp256k1, key, short) is Ok <==> secp_public(key, short) is Ok,
{
    law_hex_round_trips(ed_public(key));
    if secp_public(key, short) is Ok {
        law_hex_round_trips(secp_public(key, short)->Ok_0);
    }
}

/// A line chooses the mnemonic when it is blank or 1, the private key when it
/// is 2, and nothing otherwise.
pub proof fn law_choices_are_one_or_two(line: Seq<char>)
    ensures
        chosen(line) == Ok::<ImportKind, CliErrorView>(ImportKind::Mnemonic) <==> trim(line).len()
            == 0 || trim(line) == seq!['1'],
        chosen(line) == Ok::<ImportKind, CliErrorView>(ImportKind::PrivateKey) <==> trim(line)
            == seq!['2'],
{
    reveal_strlit("1");
    reveal_strlit("2");
    assert("1"@ =~= seq!['1']);
    assert("2"@ =~= seq!['2']);
    assert(seq!['1'][0] != seq!['2'][0]);
}

/// Where a passphrase comes from: the flag first, the environment next, and the
/// terminal last; without any it is refused.
pub proof fn law_passphrases_come_in_order(
    flag: Option<Seq<char>>,
    env: Map<Seq<char>, Seq<char>>,
    tty: bool,
)
    ensures
        flag matches Some(p) ==> old_source(flag, env, tty) == Ok::<CredentialView, CliErrorView>(
            CredentialView::Given(p),
        ) && new_source(flag, env, tty) == Ok::<CredentialView, CliErrorView>(
            CredentialView::Given(p),
        ),
        flag is None && env.contains_key("ONECIPHER_NEW_PASSPHRASE"@) ==> new_source(flag, env, tty)
            == Ok::<CredentialView, CliErrorView>(
            CredentialView::Given(env["ONECIPHER_NEW_PASSPHRASE"@]),
        ),
        flag is None && env.contains_key("ONECIPHER_PASSPHRASE"@) ==> old_source(flag, env, tty)
            == Ok::<CredentialView, CliErrorView>(
            CredentialView::Given(env["ONECIPHER_PASSPHRASE"@]),
        ),
        flag is None && !env.contains_key("ONECIPHER_NEW_PASSPHRASE"@) ==> (new_source(
            flag,
            env,
            tty,
        ) is Err <==> !tty),
        old_source(flag, env, tty) is Err ==> !tty && flag is None,
{
    assert(passphrase_vars()[0] == "ONECIPHER_PASSPHRASE"@);
}

/// Wallets and accounts are listed one behind the other, in their order; each
/// account shows its chain and its address, and each wallet its identifier, its
/// name, its accounts and the time it was created.
pub proof fn law_wallets_are_shown(v: Seq<WalletInfo>, w: WalletInfo, c: Seq<WalletAccount>,
    a: WalletAccount)
    ensures
        wallets_text(v.push(w)) == wallets_text(v) + wallet_text(w),
        wallets_text(Seq::<WalletInfo>::empty()).len() == 0,
        listed_accounts(c.push(a)) == listed_accounts(c) + listed_account(a),
        listed_accounts(Seq::<WalletAccount>::empty()).len() == 0,
        accounts_text(c.push(a)) == accounts_text(c) + account_text(a),
        accounts_text(Seq::<WalletAccount>::empty()).len() == 0,
        shows(wallet_text(w), "ID:      "@, w.id@),
        shows(wallet_text(w), "\nName:    "@, w.name@),
        shows(wallet_text(w), "\nSecured: ✓ (encrypted)\n"@, listed_accounts(w.accounts@)),
        shows(wallet_text(w), "Created: "@, w.created_at@),
        ("  "@ + a.chain_id@).is_prefix_of(listed_account(a)),
        (" → "@ + a.address@ + "\n"@).is_suffix_of(listed_account(a)),
        a.chain_name matches Some(n) ==> shows(listed_account(a), " ("@, n@),
        shows(account_text(a), "  "@, a.chain_id@),
        shows(account_text(a), " → "@, a.address@),
        a.derivation_path@.len() > 0 ==> shows(account_text(a), "    Path: "@, a.derivation_path@),
{
    assert(v.push(w).drop_last() =~= v);
    assert(c.push(a).drop_last() =~= c);
    let t = wallet_text(w);
    let accounts = listed_accounts(w.accounts@);
    assert(shows(t, "ID:      "@, w.id@)) by {
        lemma_shows_first("ID:      "@, w.id@);
        let u = "ID:      "@ + w.id@;
        lemma_shows_more4(u, "\nName:    "@, w.name@, "\nSecured: ✓ (encrypted)\n"@, accounts,
            "ID:      "@, w.id@);
        let u = u + "\nName:    "@ + w.name@ + "\nSecured: ✓ (encrypted)\n"@ + accounts;
        lemma_shows_more(u, "Created: "@, "ID:      "@, w.id@);
        let u = u + "Created: "@;
        lemma_shows_more(u, w.created_at@, "ID:      "@, w.id@);
        let u = u + w.created_at@;
        lemma_shows_more(u, "\n\n"@, "ID:      "@, w.id@);
    }
    assert(shows(t, "\nName:    "@, w.name@)) by {
        let a = "ID:      "@ + w.id@;
        lemma_shows_last(a, "\nName:    "@, w.name@);
        let u = a + "\nName:    "@ + w.name@;
        lemma_shows_more4(u, "\nSecured: ✓ (encrypted)\n"@, accounts, "Created: "@, w.created_at@,
            "\nName:    "@, w.name@);
        let u = u + "\nSecured: ✓ (encrypted)\n"@ + accounts + "Created: "@ + w.created_at@;
        lemma_shows_more(u, "\n\n"@, "\nName:    "@, w.name@);
    }
    assert(shows(t, "\nSecured: ✓ (encrypted)\n"@, accounts)) by {
        let a = "ID:      "@ + w.id@ + "\nName:    "@ + w.name@;
        lemma_shows_last(a, "\nSecured: ✓ (encrypted)\n"@, accounts);
        let u = a + "\nSecured: ✓ (encrypted)\n"@ + accounts;
        lemma_shows_more(u, "Created: "@, "\nSecured: ✓ (encrypted)\n"@, accounts);
        let u = u + "Created: "@;
        lemma_shows_more(u, w.created_at@, "\nSecured: ✓ (encrypted)\n"@, accounts);
        let u = u + w.created_at@;
        lemma_shows_more(u, "\n\n"@, "\nSecured: ✓ (encrypted)\n"@, accounts);
    }
    assert(shows(t, "Created: "@, w.created_at@)) by {
        let a = "ID:      "@ + w.id@ + "\nName:    "@ + w.name@ + "\nSecured: ✓ (encrypted)\n"@
            + accounts;
        lemma_shows_last(a, "Created: "@, w.created_at@);
        let u = a + "Created: "@ + w.created_at@;
        lemma_shows_more(u, "\n\n"@, "Created: "@, w.created_at@);
    }
    let l = listed_account(a);
    let head = "  "@ + a.chain_id@;
    assert(l.take(head.len() as int) =~= head);
    let tail = " → "@ + a.address@ + "\n"@;
    assert(l.subrange(l.len() - tail.len(), l.len() as int) =~= tail);
    if let Some(n) = a.chain_name {
        assert(shows(l, " ("@, n@)) by {
            let b = ")"@ + tail;
            lemma_shows(head, " ("@, n@, b);
            assert(l =~= head + " ("@ + n@ + b);
        }
    }
    let t = account_text(a);
    let path = if a.derivation_path@.len() > 0 {
        "    Path: "@ + a.derivation_path@ + "\n"@
    } else {
        Seq::empty()
    };
    assert(shows(t, "  "@, a.chain_id@)) by {
        let x = Seq::<char>::empty();
        let b = " → "@ + a.address@ + "\n"@ + path;
        lemma_shows(x, "  "@, a.chain_id@, b);
        assert(t =~= x + "  "@ + a.chain_id@ + b);
    }
    assert(shows(t, " → "@, a.address@)) by {
        let x = "  "@ + a.chain_id@;
        let b = "\n"@ + path;
        lemma_shows(x, " → "@, a.address@, b);
        assert(t =~= x + " → "@ + a.address@ + b);
    }
    if a.derivation_path@.len() > 0 {
        assert(shows(t, "    Path: "@, a.derivation_path@)) by {
            let x = "  "@ + a.chain_id@ + " → "@ + a.address@ + "\n"@;
            lemma_shows(x, "    Path: "@, a.derivation_path@, "\n"@);
            assert(t =~= x + "    Path: "@ + a.derivation_path@ + "\n"@);
        }
    }
}

/// An export warns before it shows anything, of a private key when the material is
/// a pair of keys and of a mnemonic otherwise.
pub proof fn law_exports_warn(material: Seq<char>)
    ensures
        export_lines(material).len() == 4,
        export_lines(material).contains("Do not share it. Store it securely offline."@),
        (material.len() > 0 && material[0] == '{') ==> export_lines(material).contains(
            "WARNING: The private key below provides FULL ACCESS to this wallet."@,
        ),
        !(material.len() > 0 && material[0] == '{') ==> export_lines(material).contains(
            "WARNING: The mnemonic below provides FULL ACCESS to this wallet."@,
        ),
{
    reveal_strlit("{");
    let l = export_lines(material);
    assert(l[2] == "Do not share it. Store it securely offline."@);
    if material.len() > 0 && material[0] == '{' {
        assert(material.take(1) =~= "{"@);
    } else if "{"@.is_prefix_of(material) {
        assert(material.take(1)[0] == material[0]);
    }
    assert(l[1] == l[1]);
}

/// A text that is empty counts as none.
pub proof fn law_empty_texts_are_none(o: Option<Seq<char>>)
    ensures
        filled(o) is Some <==> (o matches Some(s) && s.len() > 0),
        filled(o) is Some ==> filled(o) == o,
{
}

/// Of two variables the first that is set is taken away, and no other variable.
pub proof fn law_only_the_variable_used_is_taken(
    env: Map<Seq<char>, Seq<char>>,
    a: Seq<char>,
    b: Seq<char>,
    k: Seq<char>,
)
    ensures
        !without_either(env, a, b).contains_key(a),
        env.contains_key(a) && a != b ==> (without_either(env, a, b).contains_key(b)
            <==> env.contains_key(b)),
        !env.contains_key(a) ==> !without_either(env, a, b).contains_key(b),
        k != a && k != b ==> (without_either(env, a, b).contains_key(k) <==> env.contains_key(k)),
        without_either(env, a, b).contains_key(k) ==> without_either(env, a, b)[k] == env[k],
{
}

/// Of two variables the first counts when it is set, and the second otherwise.
pub proof fn law_the_first_variable_counts(
    env: Map<Seq<char>, Seq<char>>,
    a: Seq<char>,
    b: Seq<char>,
)
    ensures
        env.contains_key(a) ==> either(env, a, b) == Some(env[a]),
        !env.contains_key(a) && env.contains_key(b) ==> either(env, a, b) == Some(env[b]),
        !env.contains_key(a) && !env.contains_key(b) ==> either(env, a, b) is None,
{
}

} // verus!
