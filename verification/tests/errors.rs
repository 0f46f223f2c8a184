use onecipher::dispatch::{
    daemon_ending, dispatch_key, dispatch_policy, dispatch_secret, dispatch_tui, dispatch_wallet,
    enclave_ending, run, shell_rc_files, update_shell_rc_paths, KeyCommand, PolicyCommand,
    SecretCommand, WalletAction, WalletCommand,
};
use onecipher::commands::ItemType;
use onecipher::error::{CliError, CoreFault, IoFault, WalletFault};
use onecipher::exit::exit_code_for;
use onecipher::output::{
    is_json_mode, reject_interactive_if_json, require_confirm, require_force,
};

fn text(s: &str) -> String {
    s.to_string()
}

// Errors

#[test]
fn envelope_has_code_and_message() {
    let e = CliError::InvalidArgs(text("bad flag"));
    let v: serde_json::Value = serde_json::from_str(&e.to_envelope()).unwrap();
    assert_eq!(v["code"], "INVALID_ARGS");
    assert!(v["message"].as_str().unwrap().contains("bad flag"));
    assert_eq!(e.exit_code(), 64);
}

#[test]
fn envelopes_quote_the_message() {
    let e = CliError::InvalidArgs(text("a \"b\"\n\\c"));
    let v: serde_json::Value = serde_json::from_str(&e.to_envelope()).unwrap();
    assert_eq!(v["message"], e.message());
    assert_eq!(v.as_object().unwrap().len(), 2);
}

#[test]
fn wallet_not_found_maps_to_code() {
    let e = CliError::Lib(WalletFault::WalletNotFound, text("w"));
    assert_eq!(e.code(), "WALLET_NOT_FOUND");
}

#[test]
fn policy_denied_maps_to_code() {
    let e = CliError::Lws(CoreFault::PolicyDenied, text("r"));
    assert_eq!(e.code(), "POLICY_DENIED");
}

#[test]
fn exit_codes_follow_sysexits() {
    assert_eq!(CliError::InvalidArgs(text("x")).exit_code(), 64);
    let denied = CliError::Lws(CoreFault::PolicyDenied, text("r"));
    assert_eq!(denied.exit_code(), 77);
    let missing = CliError::Lib(WalletFault::WalletNotFound, text("w"));
    assert_eq!(missing.exit_code(), 66);
    let io_missing = CliError::Io(IoFault::NotFound, text("nope"));
    assert_eq!(io_missing.exit_code(), 66);
    let io_denied = CliError::Io(IoFault::PermissionDenied, text("denied"));
    assert_eq!(io_denied.exit_code(), 77);
}

#[test]
fn other_io_errors_cannot_create() {
    assert_eq!(CliError::Io(IoFault::Other, text("x")).exit_code(), 73);
    assert_eq!(CliError::Io(IoFault::Other, text("x")).code(), "IO_ERROR");
}

#[test]
fn every_variant_has_its_code() {
    let cases = vec![
        (CliError::Lws(CoreFault::WalletNotFound, text("m")), "WALLET_NOT_FOUND", 66),
        (CliError::Lws(CoreFault::ChainNotSupported, text("m")), "CHAIN_NOT_SUPPORTED", 65),
        (CliError::Lws(CoreFault::InvalidPassphrase, text("m")), "INVALID_PASSPHRASE", 77),
        (CliError::Lws(CoreFault::InvalidInput, text("m")), "INVALID_INPUT", 65),
        (CliError::Lws(CoreFault::CaipParse, text("m")), "CAIP_PARSE_ERROR", 65),
        (CliError::Lws(CoreFault::ApiKeyNotFound, text("m")), "API_KEY_NOT_FOUND", 66),
        (CliError::Lws(CoreFault::ApiKeyExpired, text("m")), "API_KEY_EXPIRED", 77),
        (CliError::Lib(WalletFault::AmbiguousWallet, text("m")), "AMBIGUOUS_WALLET", 65),
        (CliError::Lib(WalletFault::WalletNameExists, text("m")), "WALLET_NAME_EXISTS", 73),
        (CliError::Lib(WalletFault::InvalidInput, text("m")), "INVALID_INPUT", 65),
        (CliError::Lib(WalletFault::BroadcastFailed, text("m")), "BROADCAST_FAILED", 70),
        (CliError::Lib(WalletFault::Other, text("m")), "WALLET_ERROR", 70),
        (CliError::Vault(text("m")), "VAULT_ERROR", 70),
        (CliError::Mnemonic(text("m")), "MNEMONIC_ERROR", 65),
        (CliError::Hd(text("m")), "HD_ERROR", 65),
        (CliError::Signer(text("m")), "SIGNER_ERROR", 70),
        (CliError::Crypto(text("m")), "CRYPTO_ERROR", 70),
        (CliError::Json(text("m")), "JSON_ERROR", 65),
        (CliError::Git(text("m")), "GIT_ERROR", 70),
        (CliError::SecretStore(text("m")), "SECRET_STORE_ERROR", 66),
        (CliError::Recipient(text("m")), "RECIPIENT_ERROR", 70),
        (CliError::Migration(text("m")), "MIGRATION_ERROR", 70),
        (CliError::NetAgentUnavailable, "NET_AGENT_UNAVAILABLE", 70),
        (CliError::DaemonInit(text("m")), "DAEMON_INIT_FAILED", 70),
        (CliError::KeyAgent(text("m")), "KEY_AGENT_ERROR", 70),
    ];
    for (e, code, status) in &cases {
        assert_eq!(e.code(), *code);
        assert_eq!(e.exit_code(), *status, "{code}");
        assert_eq!(exit_code_for(e.code()), *status, "{code}");
    }
}

// Exit statuses

#[test]
fn usage_errors_map_to_64() {
    assert_eq!(exit_code_for("INVALID_ARGS"), 64);
}

#[test]
fn data_errors_map_to_65() {
    for code in [
        "INVALID_INPUT",
        "CAIP_PARSE_ERROR",
        "CHAIN_NOT_SUPPORTED",
        "MNEMONIC_ERROR",
        "HD_ERROR",
        "JSON_ERROR",
        "AMBIGUOUS_WALLET",
    ] {
        assert_eq!(exit_code_for(code), 65, "code {code}");
    }
}

#[test]
fn missing_inputs_map_to_66() {
    for code in ["WALLET_NOT_FOUND", "API_KEY_NOT_FOUND", "SECRET_STORE_ERROR"] {
        assert_eq!(exit_code_for(code), 66, "code {code}");
    }
}

#[test]
fn permission_errors_map_to_77() {
    for code in ["POLICY_DENIED", "API_KEY_EXPIRED", "INVALID_PASSPHRASE"] {
        assert_eq!(exit_code_for(code), 77, "code {code}");
    }
}

#[test]
fn creation_conflicts_map_to_73() {
    assert_eq!(exit_code_for("WALLET_NAME_EXISTS"), 73);
}

#[test]
fn internal_failures_map_to_70() {
    for code in [
        "WALLET_ERROR",
        "VAULT_ERROR",
        "SIGNER_ERROR",
        "CRYPTO_ERROR",
        "BROADCAST_FAILED",
        "MIGRATION_ERROR",
        "GIT_ERROR",
        "RECIPIENT_ERROR",
        "NET_AGENT_UNAVAILABLE",
        "DAEMON_INIT_FAILED",
        "KEY_AGENT_ERROR",
    ] {
        assert_eq!(exit_code_for(code), 70, "code {code}");
    }
}

#[test]
fn unknown_codes_fail_closed_to_70() {
    assert_eq!(exit_code_for("SOMETHING_NEW"), 70);
}

// Gates

#[test]
fn json_mode_tracks_env_var() {
    assert!(!is_json_mode(&None));
    assert!(is_json_mode(&Some(text("1"))));
    assert!(is_json_mode(&Some(text(""))));
}

#[test]
fn interactive_rejected_only_in_json_mode() {
    assert!(reject_interactive_if_json(is_json_mode(&None), "tui").is_ok());
    let json_mode = is_json_mode(&Some(text("1")));
    let err = reject_interactive_if_json(json_mode, "tui").unwrap_err();
    assert!(err.message().contains("tui"));
    assert_eq!(err.code(), "INVALID_ARGS");
}

#[test]
fn force_and_confirm_gates() {
    assert!(require_force(true, "delete x").is_ok());
    assert!(require_force(false, "delete x").is_err());
    assert!(require_confirm(true, "delete x").is_ok());
    assert!(require_confirm(false, "delete x").is_err());
}

#[test]
fn gates_name_the_action_and_the_flag() {
    let e = require_force(false, "delete x").unwrap_err();
    assert!(e.message().contains("refusing to delete x without --force (destructive action)"));
    let e = require_confirm(false, "delete y").unwrap_err();
    assert!(e.message().contains("refusing to delete y without --confirm (destructive action)"));
}

// Dispatch

fn delete(confirm: bool, force: bool) -> WalletCommand {
    WalletCommand::Delete { wallet: text("w"), confirm, force }
}

#[test]
fn wallet_deletion_needs_a_flag() {
    assert_eq!(dispatch_wallet(&delete(true, false), false).unwrap(), WalletAction::Delete);
    assert_eq!(dispatch_wallet(&delete(false, true), true).unwrap(), WalletAction::Delete);
    let e = dispatch_wallet(&delete(false, false), false).unwrap_err();
    assert!(e.message().contains("refusing to delete wallet 'w' without --confirm"));
}

#[test]
fn interactive_import_needs_a_person() {
    let c = WalletCommand::Import { interactive: true };
    assert_eq!(dispatch_wallet(&c, false).unwrap(), WalletAction::ImportInteractive);
    let e = dispatch_wallet(&c, true).unwrap_err();
    assert!(e.message().contains("'wallet import --interactive' is interactive"));
    let c = WalletCommand::Import { interactive: false };
    assert_eq!(dispatch_wallet(&c, true).unwrap(), WalletAction::Import);
}

#[test]
fn exports_split_by_kind() {
    let c = WalletCommand::Export { public_key: true };
    assert_eq!(dispatch_wallet(&c, false).unwrap(), WalletAction::ExportPublicKey);
    let c = WalletCommand::Export { public_key: false };
    assert_eq!(dispatch_wallet(&c, false).unwrap(), WalletAction::Export);
    assert_eq!(dispatch_wallet(&WalletCommand::Info, true).unwrap(), WalletAction::Info);
}

#[test]
fn policies_and_keys_are_gated() {
    assert!(dispatch_policy(&PolicyCommand::List).is_ok());
    let c = PolicyCommand::Delete { id: text("p"), confirm: false, force: false };
    assert!(dispatch_policy(&c).unwrap_err().message().contains("delete policy 'p'"));
    let c = PolicyCommand::Delete { id: text("p"), confirm: false, force: true };
    assert!(dispatch_policy(&c).is_ok());
    assert!(dispatch_key(&KeyCommand::Create).is_ok());
    let c = KeyCommand::Revoke { id: text("k"), confirm: false, force: false };
    assert!(dispatch_key(&c).unwrap_err().message().contains("revoke API key 'k'"));
    let c = KeyCommand::Revoke { id: text("k"), confirm: true, force: false };
    assert!(dispatch_key(&c).is_ok());
}

#[test]
fn secret_commands_check_types() {
    assert_eq!(dispatch_secret(&SecretCommand::List(None), true).unwrap(), None);
    let c = SecretCommand::List(Some(text(" Password ")));
    assert_eq!(dispatch_secret(&c, true).unwrap(), Some(ItemType::Password));
    let c = SecretCommand::Add(text("private-key"));
    assert_eq!(dispatch_secret(&c, false).unwrap(), Some(ItemType::PrivateKey));
    let e = dispatch_secret(&SecretCommand::Add(text("x")), false).unwrap_err();
    assert!(e.message().contains("unknown item type 'x'"));
    assert!(dispatch_secret(&SecretCommand::Edit, true).is_err());
    assert!(dispatch_secret(&SecretCommand::Edit, false).is_ok());
    assert!(dispatch_secret(&SecretCommand::Other, true).is_ok());
    assert!(dispatch_tui(true).is_err());
    assert!(dispatch_tui(false).is_ok());
}

#[test]
fn endings_speak_one_stream() {
    let ok = run(&Ok(()), true);
    assert_eq!((ok.status, ok.out, ok.err), (0, None, None));
    let failure: Result<(), CliError> = Err(CliError::InvalidArgs(text("bad")));
    let json = run(&failure, true);
    assert_eq!(json.status, 64);
    assert!(json.out.unwrap().contains("INVALID_ARGS"));
    assert_eq!(json.err, None);
    let human = run(&failure, false);
    assert_eq!(human.out, None);
    assert!(human.err.unwrap().starts_with("error: "));
    let daemon = daemon_ending(&failure);
    assert_eq!(daemon.status, 1);
    let child = enclave_ending(&Err(text("no key")));
    assert_eq!((child.status, child.err.unwrap()), (1, text("enclave child failed: no key")));
}

#[test]
fn shell_files_are_rewritten_where_needed() {
    let files = shell_rc_files("/home/u");
    assert_eq!(files[0], "/home/u/.zshrc");
    assert_eq!(files[3], "/home/u/.config/fish/config.fish");
    let updated = update_shell_rc_paths("PATH=$HOME/.lws/bin:$PATH", ".lws/bin", ".onecipher/bin");
    assert_eq!(updated.unwrap(), "PATH=$HOME/.onecipher/bin:$PATH");
    assert_eq!(update_shell_rc_paths("PATH=/bin", ".lws/bin", ".onecipher/bin"), None);
    assert_eq!(update_shell_rc_paths("ab", "", "-").unwrap(), "-a-b-");
}
