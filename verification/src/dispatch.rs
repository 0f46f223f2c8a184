//! From commands to actions: what has to be confirmed, and what cannot run
//! without a person.
use vstd::prelude::*;

use crate::commands::{item_type_of, parse_item_type, ItemType};
use crate::error::{CliError, CliErrorView};
use crate::output::{
    gate_refusal, interactive_refusal, reject_interactive_if_json, require_confirm,
};
use crate::path::{child, child_path};
use crate::text::{ascii_lower, contains, contains_text, opt_text, replace, replaced, texts, trim};

verus! {

/// A `wallet` command.
#[derive(Debug)]
pub enum WalletCommand {
    Create,
    Import { interactive: bool },
    Export { public_key: bool },
    Delete { wallet: String, confirm: bool, force: bool },
    Rename,
    List,
    Info,
    ChangePassword,
}

/// What a `wallet` command does.
#[derive(Clone, Copy, Debug, PartialEq, Eq, Structural)]
pub enum WalletAction {
    Create,
    ImportInteractive,
    Import,
    ExportPublicKey,
    Export,
    Delete,
    Rename,
    List,
    Info,
    ChangePassword,
}

/// What a `wallet` command does. Importing at the terminal is refused in JSON
/// mode, and deleting needs `--confirm` or `--force`.
pub open spec fn wallet_action(c: WalletCommand, json_mode: bool) -> Result<
    WalletAction,
    CliErrorView,
> {
    match c {
        WalletCommand::Create => Ok(WalletAction::Create),
        WalletCommand::Import { interactive } => if !interactive {
            Ok(WalletAction::Import)
        } else if json_mode {
            Err(interactive_refusal("wallet import --interactive"@))
        } else {
            Ok(WalletAction::ImportInteractive)
        },
        WalletCommand::Export { public_key } => if public_key {
            Ok(WalletAction::ExportPublicKey)
        } else {
            Ok(WalletAction::Export)
        },
        WalletCommand::Delete { wallet, confirm, force } => if confirm || force {
            Ok(WalletAction::Delete)
        } else {
            Err(gate_refusal("delete wallet '"@ + wallet@ + "'"@, "--confirm"@))
        },
        WalletCommand::Rename => Ok(WalletAction::Rename),
        WalletCommand::List => Ok(WalletAction::List),
        WalletCommand::Info => Ok(WalletAction::Info),
        WalletCommand::ChangePassword => Ok(WalletAction::ChangePassword),
    }
}

/// What a `wallet` command does.
pub fn dispatch_wallet(c: &WalletCommand, json_mode: bool) -> (r: Result<WalletAction, CliError>)
    ensures
        match r {
            Ok(a) => wallet_action(*c, json_mode) == Ok::<WalletAction, CliErrorView>(a),
            Err(e) => wallet_action(*c, json_mode) == Err::<WalletAction, CliErrorView>(e@),
        },
{
    match c {
        WalletCommand::Create => Ok(WalletAction::Create),
        WalletCommand::Import { interactive } => {
            if *interactive {
                match reject_interactive_if_json(json_mode, "wallet import --interactive") {
                    Ok(_) => Ok(WalletAction::ImportInteractive),
                    Err(e) => Err(e),
                }
            } else {
                Ok(WalletAction::Import)
            }
        },
        WalletCommand::Export { public_key } => {
            if *public_key {
                Ok(WalletAction::ExportPublicKey)
            } else {
                Ok(WalletAction::Export)
            }
        },
        WalletCommand::Delete { wallet, confirm, force } => {
            let what = "delete wallet '".to_owned().concat(wallet.as_str()).concat("'");
            match require_confirm(*confirm || *force, what.as_str()) {
                Ok(_) => Ok(WalletAction::Delete),
                Err(e) => Err(e),
            }
        },
        WalletCommand::Rename => Ok(WalletAction::Rename),
        WalletCommand::List => Ok(WalletAction::List),
        WalletCommand::Info => Ok(WalletAction::Info),
        WalletCommand::ChangePassword => Ok(WalletAction::ChangePassword),
    }
}

/// A `policy` command.
#[derive(Debug)]
pub enum PolicyCommand {
    Create,
    List,
    Show,
    Delete { id: String, confirm: bool, force: bool },
}

/// A `policy` command may run: deleting needs `--confirm` or `--force`.
pub fn dispatch_policy(c: &PolicyCommand) -> (r: Result<(), CliError>)
    ensures
        match r {
            Ok(_) => *c matches PolicyCommand::Delete { id, confirm, force } ==> confirm || force,
            Err(e) => *c matches PolicyCommand::Delete { id, confirm, force } && !confirm && !force
                && e@ == gate_refusal("delete policy '"@ + id@ + "'"@, "--confirm"@),
        },
{
    match c {
        PolicyCommand::Delete { id, confirm, force } => {
            let what = "delete policy '".to_owned().concat(id.as_str()).concat("'");
            require_confirm(*confirm || *force, what.as_str())
        },
        _ => Ok(()),
    }
}

/// A `key` command.
#[derive(Debug)]
pub enum KeyCommand {
    Create,
    List,
    Revoke { id: String, confirm: bool, force: bool },
}

/// A `key` command may run: revoking needs `--confirm` or `--force`.
pub fn dispatch_key(c: &KeyCommand) -> (r: Result<(), CliError>)
    ensures
        match r {
            Ok(_) => *c matches KeyCommand::Revoke { id, confirm, force } ==> confirm || force,
            Err(e) => *c matches KeyCommand::Revoke { id, confirm, force } && !confirm && !force
                && e@ == gate_refusal("revoke API key '"@ + id@ + "'"@, "--confirm"@),
        },
{
    match c {
        KeyCommand::Revoke { id, confirm, force } => {
            let what = "revoke API key '".to_owned().concat(id.as_str()).concat("'");
            require_confirm(*confirm || *force, what.as_str())
        },
        _ => Ok(()),
    }
}

/// A `secret` command whose arguments have to be looked at first.
#[derive(Debug)]
pub enum SecretCommand {
    /// With the type to list.
    List(Option<String>),
    /// With the type of the new item.
    Add(String),
    Edit,
    Other,
}

/// The type that a `secret` command names.
pub open spec fn secret_type(c: SecretCommand) -> Option<Seq<char>> {
    match c {
        SecretCommand::List(t) => opt_text(t),
        SecretCommand::Add(t) => Some(t@),
        _ => None,
    }
}

/// The type that a `secret` command names, or why it cannot run. Editing is
/// refused in JSON mode.
pub fn dispatch_secret(c: &SecretCommand, json_mode: bool) -> (r: Result<
    Option<ItemType>,
    CliError,
>)
    ensures
        match r {
            Ok(t) => !(c is Edit && json_mode) && match secret_type(*c) {
                Some(name) => t is Some && item_type_of(ascii_lower(trim(name))) == t,
                None => t is None,
            },
            Err(e) => if c is Edit {
                json_mode && e@ == interactive_refusal("secret edit"@)
            } else {
                secret_type(*c) matches Some(name) && item_type_of(ascii_lower(trim(name))) is None
                    && e@ == CliErrorView::InvalidArgs(
                    "unknown item type '"@ + name
                        + "' (expected: mnemonic, private_key, password, totp, note, file)"@,
                )
            },
        },
{
    match c {
        SecretCommand::List(None) => Ok(None),
        SecretCommand::List(Some(t)) => match parse_item_type(t.as_str()) {
            Ok(x) => Ok(Some(x)),
            Err(e) => Err(e),
        },
        SecretCommand::Add(t) => match parse_item_type(t.as_str()) {
            Ok(x) => Ok(Some(x)),
            Err(e) => Err(e),
        },
        SecretCommand::Edit => match reject_interactive_if_json(json_mode, "secret edit") {
            Ok(_) => Ok(None),
            Err(e) => Err(e),
        },
        SecretCommand::Other => Ok(None),
    }
}

/// The full-screen interface cannot run in JSON mode.
pub fn dispatch_tui(json_mode: bool) -> (r: Result<(), CliError>)
    ensures
        match r {
            Ok(_) => !json_mode,
            Err(e) => json_mode && e@ == interactive_refusal("tui"@),
        },
{
    reject_interactive_if_json(json_mode, "tui")
}

/// How the program ends.
#[derive(Debug)]
pub struct Ending {
    pub status: i32,
    /// The error on standard output, as JSON.
    pub out: Option<String>,
    /// The error on standard error.
    pub err: Option<String>,
}

/// How the program ends: a failure goes to standard output as one JSON object
/// in JSON mode, and to standard error otherwise.
pub fn run(result: &Result<(), CliError>, json_mode: bool) -> (e: Ending)
    ensures
        match *result {
            Ok(_) => e.status == 0 && e.out is None && e.err is None,
            Err(x) => e.status == x@.exit_code() && if json_mode {
                opt_text(e.out) == Some(x@.envelope()) && e.err is None
            } else {
                e.out is None && opt_text(e.err) == Some("error: "@ + x@.message())
            },
        },
{
    match result {
        Ok(_) => Ending { status: 0, out: None, err: None },
        Err(x) => {
            if json_mode {
                Ending { status: x.exit_code(), out: Some(x.to_envelope()), err: None }
            } else {
                Ending {
                    status: x.exit_code(),
                    out: None,
                    err: Some("error: ".to_owned().concat(x.message().as_str())),
                }
            }
        },
    }
}

/// How the daemon ends: every failure has the same status.
pub fn daemon_ending(result: &Result<(), CliError>) -> (e: Ending)
    ensures
        e.out is None,
        match *result {
            Ok(_) => e.status == 0 && e.err is None,
            Err(x) => e.status == 1 && opt_text(e.err) == Some("error: "@ + x@.message()),
        },
{
    match result {
        Ok(_) => Ending { status: 0, out: None, err: None },
        Err(x) => Ending {
            status: 1,
            out: None,
            err: Some("error: ".to_owned().concat(x.message().as_str())),
        },
    }
}

/// How the child that signs one request ends.
pub fn enclave_ending(result: &Result<(), String>) -> (e: Ending)
    ensures
        e.out is None,
        match *result {
            Ok(_) => e.status == 0 && e.err is None,
            Err(m) => e.status == 1 && opt_text(e.err) == Some("enclave child failed: "@ + m@),
        },
{
    match result {
        Ok(_) => Ending { status: 0, out: None, err: None },
        Err(m) => Ending {
            status: 1,
            out: None,
            err: Some("enclave child failed: ".to_owned().concat(m.as_str())),
        },
    }
}

/// The files of the shells that hold the search path.
pub open spec fn shell_files(home: Seq<char>) -> Seq<Seq<char>> {
    seq![
        child_path(home, ".zshrc"@),
        child_path(home, ".bashrc"@),
        child_path(home, ".bash_profile"@),
        child_path(home, ".config/fish/config.fish"@),
    ]
}

/// The files of the shells that hold the search path.
pub fn shell_rc_files(home: &str) -> (r: Vec<String>)
    ensures
        texts(r@) == shell_files(home@),
{
    let mut out: Vec<String> = Vec::new();
    out.push(child(home, ".zshrc"));
    out.push(child(home, ".bashrc"));
    out.push(child(home, ".bash_profile"));
    out.push(child(home, ".config/fish/config.fish"));
    assert(texts(out@) =~= shell_files(home@));
    out
}

/// What a file of a shell is rewritten to, if it names the old directory.
pub fn update_shell_rc_paths(contents: &str, from: &str, to: &str) -> (r: Option<String>)
    ensures
        opt_text(r) == if contains_text(contents@, from@) {
            Some(replace(contents@, from@, to@))
        } else {
            None
        },
{
    if contains(contents, from) {
        Some(replaced(contents, from, to))
    } else {
        None
    }
}

/// Nothing is deleted or revoked without a flag: a deletion is an action only
/// when it was confirmed or forced.
pub proof fn law_deletions_are_confirmed(c: WalletCommand, json_mode: bool)
    ensures
        wallet_action(c, json_mode) == Ok::<WalletAction, CliErrorView>(WalletAction::Delete)
            <==> (c matches WalletCommand::Delete { wallet, confirm, force } && (confirm
            || force)),
{
}

/// Each wallet command does what it says; only an interactive import cannot run
/// in JSON mode.
pub proof fn law_wallet_commands_do_what_they_say(c: WalletCommand, json_mode: bool)
    ensures
        c is Create ==> wallet_action(c, json_mode) == Ok::<WalletAction, CliErrorView>(
            WalletAction::Create,
        ),
        c is Rename ==> wallet_action(c, json_mode) == Ok::<WalletAction, CliErrorView>(
            WalletAction::Rename,
        ),
        c is List ==> wallet_action(c, json_mode) == Ok::<WalletAction, CliErrorView>(
            WalletAction::List,
        ),
        c is Info ==> wallet_action(c, json_mode) == Ok::<WalletAction, CliErrorView>(
            WalletAction::Info,
        ),
        c is ChangePassword ==> wallet_action(c, json_mode) == Ok::<WalletAction, CliErrorView>(
            WalletAction::ChangePassword,
        ),
        wallet_action(c, json_mode) == Ok::<WalletAction, CliErrorView>(WalletAction::Export) <==> (
        c matches WalletCommand::Export { public_key } && !public_key),
        wallet_action(c, json_mode) == Ok::<WalletAction, CliErrorView>(
            WalletAction::ExportPublicKey,
        ) <==> (c matches WalletCommand::Export { public_key } && public_key),
        wallet_action(c, json_mode) == Ok::<WalletAction, CliErrorView>(WalletAction::Import) <==> (
        c matches WalletCommand::Import { interactive } && !interactive),
        wallet_action(c, json_mode) == Ok::<WalletAction, CliErrorView>(
            WalletAction::ImportInteractive,
        ) <==> (c matches WalletCommand::Import { interactive } && interactive) && !json_mode,
        wallet_action(c, json_mode) is Err <==> (c matches WalletCommand::Delete {
            wallet,
            confirm,
            force,
        } && !confirm && !force) || ((c matches WalletCommand::Import { interactive }
            && interactive) && json_mode),
{
}

/// Only listing and adding take a type, the one that was given; the files of the
/// shells are those of zsh, bash and fish in the home directory.
pub proof fn law_types_and_shell_files(c: SecretCommand, home: Seq<char>)
    ensures
        c matches SecretCommand::Add(t) ==> secret_type(c) == Some(t@),
        c matches SecretCommand::List(Some(t)) ==> secret_type(c) == Some(t@),
        secret_type(c) is Some ==> c is Add || c is List,
        shell_files(home).len() == 4,
        shell_files(home)[0] == child_path(home, ".zshrc"@),
        shell_files(home)[1] == child_path(home, ".bashrc"@),
        shell_files(home)[2] == child_path(home, ".bash_profile"@),
        shell_files(home)[3] == child_path(home, ".config/fish/config.fish"@),
{
}

} // verus!
