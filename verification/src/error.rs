//! The error type of the commands: stable codes, exit statuses and the JSON
//! envelope.
use vstd::prelude::*;

use crate::exit::{exit_code_for, EX_CANTCREAT, EX_NOINPUT, EX_NOPERM};
use crate::json::quote;
use crate::text::{lemma_shows, shows};

verus! {

/// The kinds of wallet-core failures.
#[derive(Clone, Copy, Debug, PartialEq, Eq, Structural)]
pub enum CoreFault {
    WalletNotFound,
    ChainNotSupported,
    InvalidPassphrase,
    InvalidInput,
    CaipParse,
    PolicyDenied,
    ApiKeyNotFound,
    ApiKeyExpired,
}

/// The kinds of wallet-library failures; `Other` is any kind without a code of
/// its own.
#[derive(Clone, Copy, Debug, PartialEq, Eq, Structural)]
pub enum WalletFault {
    WalletNotFound,
    AmbiguousWallet,
    WalletNameExists,
    InvalidInput,
    BroadcastFailed,
    Other,
}

/// The kinds of I/O failures that have an exit status of their own.
#[derive(Clone, Copy, Debug, PartialEq, Eq, Structural)]
pub enum IoFault {
    NotFound,
    PermissionDenied,
    Other,
}

/// What a command can fail with. A failure that comes from elsewhere carries
/// the message it came with.
#[derive(Debug)]
pub enum CliError {
    Lws(CoreFault, String),
    Lib(WalletFault, String),
    Vault(String),
    Mnemonic(String),
    Hd(String),
    Signer(String),
    Crypto(String),
    Io(IoFault, String),
    Json(String),
    Git(String),
    SecretStore(String),
    Recipient(String),
    Migration(String),
    InvalidArgs(String),
    NetAgentUnavailable,
    DaemonInit(String),
    KeyAgent(String),
}

/// [`CliError`] with its texts as sequences of characters.
pub enum CliErrorView {
    Lws(CoreFault, Seq<char>),
    Lib(WalletFault, Seq<char>),
    Vault(Seq<char>),
    Mnemonic(Seq<char>),
    Hd(Seq<char>),
    Signer(Seq<char>),
    Crypto(Seq<char>),
    Io(IoFault, Seq<char>),
    Json(Seq<char>),
    Git(Seq<char>),
    SecretStore(Seq<char>),
    Recipient(Seq<char>),
    Migration(Seq<char>),
    InvalidArgs(Seq<char>),
    NetAgentUnavailable,
    DaemonInit(Seq<char>),
    KeyAgent(Seq<char>),
}

impl View for CliError {
    type V = CliErrorView;

    open spec fn view(&self) -> CliErrorView {
        match *self {
            CliError::Lws(k, s) => CliErrorView::Lws(k, s@),
            CliError::Lib(k, s) => CliErrorView::Lib(k, s@),
            CliError::Vault(s) => CliErrorView::Vault(s@),
            CliError::Mnemonic(s) => CliErrorView::Mnemonic(s@),
            CliError::Hd(s) => CliErrorView::Hd(s@),
            CliError::Signer(s) => CliErrorView::Signer(s@),
            CliError::Crypto(s) => CliErrorView::Crypto(s@),
            CliError::Io(k, s) => CliErrorView::Io(k, s@),
            CliError::Json(s) => CliErrorView::Json(s@),
            CliError::Git(s) => CliErrorView::Git(s@),
            CliError::SecretStore(s) => CliErrorView::SecretStore(s@),
            CliError::Recipient(s) => CliErrorView::Recipient(s@),
            CliError::Migration(s) => CliErrorView::Migration(s@),
            CliError::InvalidArgs(s) => CliErrorView::InvalidArgs(s@),
            CliError::NetAgentUnavailable => CliErrorView::NetAgentUnavailable,
            CliError::DaemonInit(s) => CliErrorView::DaemonInit(s@),
            CliError::KeyAgent(s) => CliErrorView::KeyAgent(s@),
        }
    }
}

/// The stable code of a wallet-core failure.
pub open spec fn core_code(k: CoreFault) -> Seq<char> {
    match k {
        CoreFault::WalletNotFound => "WALLET_NOT_FOUND"@,
        CoreFault::ChainNotSupported => "CHAIN_NOT_SUPPORTED"@,
        CoreFault::InvalidPassphrase => "INVALID_PASSPHRASE"@,
        CoreFault::InvalidInput => "INVALID_INPUT"@,
        CoreFault::CaipParse => "CAIP_PARSE_ERROR"@,
        CoreFault::PolicyDenied => "POLICY_DENIED"@,
        CoreFault::ApiKeyNotFound => "API_KEY_NOT_FOUND"@,
        CoreFault::ApiKeyExpired => "API_KEY_EXPIRED"@,
    }
}

/// The stable code of a wallet-library failure.
pub open spec fn wallet_code(k: WalletFault) -> Seq<char> {
    match k {
        WalletFault::WalletNotFound => "WALLET_NOT_FOUND"@,
        WalletFault::AmbiguousWallet => "AMBIGUOUS_WALLET"@,
        WalletFault::WalletNameExists => "WALLET_NAME_EXISTS"@,
        WalletFault::InvalidInput => "INVALID_INPUT"@,
        WalletFault::BroadcastFailed => "BROADCAST_FAILED"@,
        WalletFault::Other => "WALLET_ERROR"@,
    }
}

impl CliErrorView {
    /// The stable code of the error.
    pub open spec fn code(self) -> Seq<char> {
        match self {
            CliErrorView::Lws(k, _) => core_code(k),
            CliErrorView::Lib(k, _) => wallet_code(k),
            CliErrorView::Vault(_) => "VAULT_ERROR"@,
            CliErrorView::Mnemonic(_) => "MNEMONIC_ERROR"@,
            CliErrorView::Hd(_) => "HD_ERROR"@,
            CliErrorView::Signer(_) => "SIGNER_ERROR"@,
            CliErrorView::Crypto(_) => "CRYPTO_ERROR"@,
            CliErrorView::Io(_, _) => "IO_ERROR"@,
            CliErrorView::Json(_) => "JSON_ERROR"@,
            CliErrorView::Git(_) => "GIT_ERROR"@,
            CliErrorView::SecretStore(_) => "SECRET_STORE_ERROR"@,
            CliErrorView::Recipient(_) => "RECIPIENT_ERROR"@,
            CliErrorView::Migration(_) => "MIGRATION_ERROR"@,
            CliErrorView::InvalidArgs(_) => "INVALID_ARGS"@,
            CliErrorView::NetAgentUnavailable => "NET_AGENT_UNAVAILABLE"@,
            CliErrorView::DaemonInit(_) => "DAEMON_INIT_FAILED"@,
            CliErrorView::KeyAgent(_) => "KEY_AGENT_ERROR"@,
        }
    }

    /// The message shown to the user.
    pub open spec fn message(self) -> Seq<char> {
        match self {
            CliErrorView::Lws(_, s) => s,
            CliErrorView::Lib(_, s) => s,
            CliErrorView::Vault(s) => "vault error: "@ + s,
            CliErrorView::Mnemonic(s) => s,
            CliErrorView::Hd(s) => s,
            CliErrorView::Signer(s) => s,
            CliErrorView::Crypto(s) => s,
            CliErrorView::Io(_, s) => s,
            CliErrorView::Json(s) => s,
            CliErrorView::Git(s) => "git error: "@ + s,
            CliErrorView::SecretStore(s) => "secret store error: "@ + s,
            CliErrorView::Recipient(s) => "recipient error: "@ + s,
            CliErrorView::Migration(s) => "migration error: "@ + s,
            CliErrorView::InvalidArgs(s) => s,
            CliErrorView::NetAgentUnavailable =>
                "Network-Agent not available (Key-Agent daemon not reachable via UDS)"@,
            CliErrorView::DaemonInit(s) => "daemon init failed: "@ + s,
            CliErrorView::KeyAgent(s) => "key-agent error: "@ + s,
        }
    }

    /// The exit status: an I/O error by its kind, every other error by its code.
    pub open spec fn exit_code(self) -> i32 {
        match self {
            CliErrorView::Io(IoFault::NotFound, _) => EX_NOINPUT,
            CliErrorView::Io(IoFault::PermissionDenied, _) => EX_NOPERM,
            CliErrorView::Io(IoFault::Other, _) => EX_CANTCREAT,
            _ => crate::exit::status_of(self.code()),
        }
    }

    /// The JSON envelope `{"code":..,"message":..}`.
    pub open spec fn envelope(self) -> Seq<char> {
        "{\"code\":"@ + crate::json::json_literal(self.code()) + ",\"message\":"@
            + crate::json::json_literal(self.message()) + "}"@
    }
}

/// The error for wrong arguments, with its message.
pub fn invalid_args(message: String) -> (e: CliError)
    ensures
        e@ == CliErrorView::InvalidArgs(message@),
{
    CliError::InvalidArgs(message)
}

/// The error for wrong arguments, with a fixed message.
pub fn invalid(message: &str) -> (e: CliError)
    ensures
        e@ == CliErrorView::InvalidArgs(message@),
{
    CliError::InvalidArgs(message.to_owned())
}

impl CliError {
    /// The stable code of the error, for the JSON envelope.
    pub fn code(&self) -> (r: &'static str)
        ensures
            r@ == self@.code(),
    {
        match self {
            CliError::Lws(k, _) => match k {
                CoreFault::WalletNotFound => "WALLET_NOT_FOUND",
                CoreFault::ChainNotSupported => "CHAIN_NOT_SUPPORTED",
                CoreFault::InvalidPassphrase => "INVALID_PASSPHRASE",
                CoreFault::InvalidInput => "INVALID_INPUT",
                CoreFault::CaipParse => "CAIP_PARSE_ERROR",
                CoreFault::PolicyDenied => "POLICY_DENIED",
                CoreFault::ApiKeyNotFound => "API_KEY_NOT_FOUND",
                CoreFault::ApiKeyExpired => "API_KEY_EXPIRED",
            },
            CliError::Lib(k, _) => match k {
                WalletFault::WalletNotFound => "WALLET_NOT_FOUND",
                WalletFault::AmbiguousWallet => "AMBIGUOUS_WALLET",
                WalletFault::WalletNameExists => "WALLET_NAME_EXISTS",
                WalletFault::InvalidInput => "INVALID_INPUT",
                WalletFault::BroadcastFailed => "BROADCAST_FAILED",
                WalletFault::Other => "WALLET_ERROR",
            },
            CliError::Vault(_) => "VAULT_ERROR",
            CliError::Mnemonic(_) => "MNEMONIC_ERROR",
            CliError::Hd(_) => "HD_ERROR",
            CliError::Signer(_) => "SIGNER_ERROR",
            CliError::Crypto(_) => "CRYPTO_ERROR",
            CliError::Io(_, _) => "IO_ERROR",
            CliError::Json(_) => "JSON_ERROR",
            CliError::Git(_) => "GIT_ERROR",
            CliError::SecretStore(_) => "SECRET_STORE_ERROR",
            CliError::Recipient(_) => "RECIPIENT_ERROR",
            CliError::Migration(_) => "MIGRATION_ERROR",
            CliError::InvalidArgs(_) => "INVALID_ARGS",
            CliError::NetAgentUnavailable => "NET_AGENT_UNAVAILABLE",
            CliError::DaemonInit(_) => "DAEMON_INIT_FAILED",
            CliError::KeyAgent(_) => "KEY_AGENT_ERROR",
        }
    }

    /// The message shown to the user.
    pub fn message(&self) -> (r: String)
        ensures
            r@ == self@.message(),
    {
        match self {
            CliError::Lws(_, s) => s.clone(),
            CliError::Lib(_, s) => s.clone(),
            CliError::Vault(s) => "vault error: ".to_owned().concat(s.as_str()),
            CliError::Mnemonic(s) => s.clone(),
            CliError::Hd(s) => s.clone(),
            CliError::Signer(s) => s.clone(),
            CliError::Crypto(s) => s.clone(),
            CliError::Io(_, s) => s.clone(),
            CliError::Json(s) => s.clone(),
            CliError::Git(s) => "git error: ".to_owned().concat(s.as_str()),
            CliError::SecretStore(s) => "secret store error: ".to_owned().concat(s.as_str()),
            CliError::Recipient(s) => "recipient error: ".to_owned().concat(s.as_str()),
            CliError::Migration(s) => "migration error: ".to_owned().concat(s.as_str()),
            CliError::InvalidArgs(s) => s.clone(),
            CliError::NetAgentUnavailable =>
                "Network-Agent not available (Key-Agent daemon not reachable via UDS)".to_owned(),
            CliError::DaemonInit(s) => "daemon init failed: ".to_owned().concat(s.as_str()),
            CliError::KeyAgent(s) => "key-agent error: ".to_owned().concat(s.as_str()),
        }
    }

    /// The exit status of the process: I/O errors by their kind (a missing
    /// file, a denied permission, anything else), every other error by its
    /// stable code.
    pub fn exit_code(&self) -> (r: i32)
        ensures
            r == self@.exit_code(),
    {
        match self {
            CliError::Io(k, _) => match k {
                IoFault::NotFound => EX_NOINPUT,
                IoFault::PermissionDenied => EX_NOPERM,
                IoFault::Other => EX_CANTCREAT,
            },
            _ => exit_code_for(self.code()),
        }
    }

    /// The JSON error envelope: one object with the stable code and the
    /// message.
    pub fn to_envelope(&self) -> (r: String)
        ensures
            r@ == self@.envelope(),
    {
        let message = self.message();
        "{\"code\":".to_owned().concat(quote(self.code()).as_str()).concat(",\"message\":").concat(
            quote(message.as_str()).as_str(),
        ).concat("}")
    }
}

/// Whatever a command fails with, the process ends with one of the published
/// statuses.
pub proof fn law_every_error_has_a_status(e: CliErrorView)
    ensures
        crate::exit::is_status(e.exit_code()),
{
}

/// The exit status tells errors apart: 64 for wrong use, 65 for wrong data, 66
/// for what is not there, 70 for failures, 73 for what cannot be written, and 77
/// for what is not allowed.
pub proof fn law_exit_statuses(e: CliErrorView)
    ensures
        e is InvalidArgs ==> e.exit_code() == 64,
        e is Json || e is Mnemonic || e is Hd ==> e.exit_code() == 65,
        e is SecretStore ==> e.exit_code() == 66,
        e is Vault || e is Signer || e is Crypto || e is Git || e is Recipient || e is Migration
            || e is NetAgentUnavailable || e is DaemonInit || e is KeyAgent ==> e.exit_code() == 70,
        e matches CliErrorView::Io(k, _) ==> e.exit_code() == match k {
            IoFault::NotFound => 66i32,
            IoFault::PermissionDenied => 77i32,
            IoFault::Other => 73i32,
        },
        e matches CliErrorView::Lws(k, _) ==> e.exit_code() == match k {
            CoreFault::WalletNotFound => 66i32,
            CoreFault::ChainNotSupported => 65i32,
            CoreFault::InvalidPassphrase => 77i32,
            CoreFault::InvalidInput => 65i32,
            CoreFault::CaipParse => 65i32,
            CoreFault::PolicyDenied => 77i32,
            CoreFault::ApiKeyNotFound => 66i32,
            CoreFault::ApiKeyExpired => 77i32,
        },
        e matches CliErrorView::Lib(k, _) ==> e.exit_code() == match k {
            WalletFault::WalletNotFound => 66i32,
            WalletFault::AmbiguousWallet => 65i32,
            WalletFault::WalletNameExists => 73i32,
            WalletFault::InvalidInput => 65i32,
            WalletFault::BroadcastFailed => 70i32,
            WalletFault::Other => 70i32,
        },
{
    reveal_strlit("INVALID_ARGS");
    reveal_strlit("INVALID_INPUT");
    reveal_strlit("CAIP_PARSE_ERROR");
    reveal_strlit("CHAIN_NOT_SUPPORTED");
    reveal_strlit("MNEMONIC_ERROR");
    reveal_strlit("HD_ERROR");
    reveal_strlit("JSON_ERROR");
    reveal_strlit("AMBIGUOUS_WALLET");
    reveal_strlit("WALLET_NOT_FOUND");
    reveal_strlit("API_KEY_NOT_FOUND");
    reveal_strlit("SECRET_STORE_ERROR");
    reveal_strlit("POLICY_DENIED");
    reveal_strlit("API_KEY_EXPIRED");
    reveal_strlit("INVALID_PASSPHRASE");
    reveal_strlit("WALLET_NAME_EXISTS");
    reveal_strlit("VAULT_ERROR");
    reveal_strlit("SIGNER_ERROR");
    reveal_strlit("CRYPTO_ERROR");
    reveal_strlit("IO_ERROR");
    reveal_strlit("GIT_ERROR");
    reveal_strlit("RECIPIENT_ERROR");
    reveal_strlit("MIGRATION_ERROR");
    reveal_strlit("NET_AGENT_UNAVAILABLE");
    reveal_strlit("DAEMON_INIT_FAILED");
    reveal_strlit("KEY_AGENT_ERROR");
    reveal_strlit("BROADCAST_FAILED");
    reveal_strlit("WALLET_ERROR");
    assert("INVALID_ARGS"@.len() == 12 && "INVALID_ARGS"@[0] == 'I'
        && "INVALID_INPUT"@.len() == 13 && "INVALID_INPUT"@[0] == 'I'
        && "CAIP_PARSE_ERROR"@.len() == 16 && "CAIP_PARSE_ERROR"@[0] == 'C'
        && "CHAIN_NOT_SUPPORTED"@.len() == 19 && "CHAIN_NOT_SUPPORTED"@[0] == 'C'
        && "MNEMONIC_ERROR"@.len() == 14 && "MNEMONIC_ERROR"@[0] == 'M' && "HD_ERROR"@.len() == 8
        && "HD_ERROR"@[0] == 'H' && "JSON_ERROR"@.len() == 10 && "JSON_ERROR"@[0] == 'J'
        && "AMBIGUOUS_WALLET"@.len() == 16 && "AMBIGUOUS_WALLET"@[0] == 'A'
        && "WALLET_NOT_FOUND"@.len() == 16 && "WALLET_NOT_FOUND"@[0] == 'W'
        && "API_KEY_NOT_FOUND"@.len() == 17 && "API_KEY_NOT_FOUND"@[0] == 'A'
        && "SECRET_STORE_ERROR"@.len() == 18 && "SECRET_STORE_ERROR"@[0] == 'S'
        && "POLICY_DENIED"@.len() == 13 && "POLICY_DENIED"@[0] == 'P'
        && "API_KEY_EXPIRED"@.len() == 15 && "API_KEY_EXPIRED"@[0] == 'A'
        && "INVALID_PASSPHRASE"@.len() == 18 && "INVALID_PASSPHRASE"@[0] == 'I'
        && "WALLET_NAME_EXISTS"@.len() == 18 && "WALLET_NAME_EXISTS"@[0] == 'W'
        && "VAULT_ERROR"@.len() == 11 && "VAULT_ERROR"@[0] == 'V' && "SIGNER_ERROR"@.len() == 12
        && "SIGNER_ERROR"@[0] == 'S' && "CRYPTO_ERROR"@.len() == 12 && "CRYPTO_ERROR"@[0] == 'C'
        && "IO_ERROR"@.len() == 8 && "IO_ERROR"@[0] == 'I' && "GIT_ERROR"@.len() == 9
        && "GIT_ERROR"@[0] == 'G' && "RECIPIENT_ERROR"@.len() == 15
        && "RECIPIENT_ERROR"@[0] == 'R' && "MIGRATION_ERROR"@.len() == 15
        && "MIGRATION_ERROR"@[0] == 'M' && "NET_AGENT_UNAVAILABLE"@.len() == 21
        && "NET_AGENT_UNAVAILABLE"@[0] == 'N' && "DAEMON_INIT_FAILED"@.len() == 18
        && "DAEMON_INIT_FAILED"@[0] == 'D' && "KEY_AGENT_ERROR"@.len() == 15
        && "KEY_AGENT_ERROR"@[0] == 'K' && "BROADCAST_FAILED"@.len() == 16
        && "BROADCAST_FAILED"@[0] == 'B' && "WALLET_ERROR"@.len() == 12
        && "WALLET_ERROR"@[0] == 'W');
}

/// The message of an error ends with what went wrong.
pub proof fn law_messages_end_with_the_cause(s: Seq<char>)
    ensures
        s.is_suffix_of(CliErrorView::Vault(s).message()),
        s.is_suffix_of(CliErrorView::Git(s).message()),
        s.is_suffix_of(CliErrorView::SecretStore(s).message()),
        s.is_suffix_of(CliErrorView::Recipient(s).message()),
        s.is_suffix_of(CliErrorView::Migration(s).message()),
        s.is_suffix_of(CliErrorView::DaemonInit(s).message()),
        s.is_suffix_of(CliErrorView::KeyAgent(s).message()),
        CliErrorView::InvalidArgs(s).message() == s,
        CliErrorView::Json(s).message() == s,
{
    lemma_is_tail("vault error: "@, s);
    lemma_is_tail("git error: "@, s);
    lemma_is_tail("secret store error: "@, s);
    lemma_is_tail("recipient error: "@, s);
    lemma_is_tail("migration error: "@, s);
    lemma_is_tail("daemon init failed: "@, s);
    lemma_is_tail("key-agent error: "@, s);
}

proof fn lemma_is_tail(a: Seq<char>, s: Seq<char>)
    ensures
        s.is_suffix_of(a + s),
{
    let t = a + s;
    assert(t.subrange(t.len() - s.len(), t.len() as int) =~= s);
}

/// The envelope of an error carries its code and its message, each under its name.
pub proof fn law_envelopes_carry_code_and_message(e: CliErrorView)
    ensures
        shows(e.envelope(), "{\"code\":"@, crate::json::json_literal(e.code())),
        shows(e.envelope(), ",\"message\":"@, crate::json::json_literal(e.message())),
{
    let t = e.envelope();
    let code = crate::json::json_literal(e.code());
    let message = crate::json::json_literal(e.message());
    assert(shows(t, "{\"code\":"@, code)) by {
        let a = Seq::<char>::empty();
        let b = ",\"message\":"@ + message + "}"@;
        lemma_shows(a, "{\"code\":"@, code, b);
        assert(t =~= a + "{\"code\":"@ + code + b);
    }
    assert(shows(t, ",\"message\":"@, message)) by {
        let a = "{\"code\":"@ + code;
        let b = "}"@;
        lemma_shows(a, ",\"message\":"@, message, b);
        assert(t =~= a + ",\"message\":"@ + message + b);
    }
}

/// What is read of the value in a contract is the value itself, each part under its
/// own name.
pub proof fn law_cli_error_views_keep_each_value(x: CliError)
    ensures
        x matches CliError::Lws(k, s) ==> x@ == CliErrorView::Lws(k, s@),
        x matches CliError::Lib(k, s) ==> x@ == CliErrorView::Lib(k, s@),
        x matches CliError::Vault(s) ==> x@ == CliErrorView::Vault(s@),
        x matches CliError::Mnemonic(s) ==> x@ == CliErrorView::Mnemonic(s@),
        x matches CliError::Hd(s) ==> x@ == CliErrorView::Hd(s@),
        x matches CliError::Signer(s) ==> x@ == CliErrorView::Signer(s@),
        x matches CliError::Crypto(s) ==> x@ == CliErrorView::Crypto(s@),
        x matches CliError::Io(k, s) ==> x@ == CliErrorView::Io(k, s@),
        x matches CliError::Json(s) ==> x@ == CliErrorView::Json(s@),
        x matches CliError::Git(s) ==> x@ == CliErrorView::Git(s@),
        x matches CliError::SecretStore(s) ==> x@ == CliErrorView::SecretStore(s@),
        x matches CliError::Recipient(s) ==> x@ == CliErrorView::Recipient(s@),
        x matches CliError::Migration(s) ==> x@ == CliErrorView::Migration(s@),
        x matches CliError::InvalidArgs(s) ==> x@ == CliErrorView::InvalidArgs(s@),
        x is NetAgentUnavailable ==> x@ == CliErrorView::NetAgentUnavailable,
        x matches CliError::DaemonInit(s) ==> x@ == CliErrorView::DaemonInit(s@),
        x matches CliError::KeyAgent(s) ==> x@ == CliErrorView::KeyAgent(s@),
{
}

} // verus!
