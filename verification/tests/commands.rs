use onecipher::commands::completion::unsupported_shell;
use onecipher::commands::config;
use onecipher::commands::config::{parse_bool, parse_change, set_message, show, Endpoint};
use onecipher::commands::derive::{address_line, chain_line, plan, Place};
use onecipher::commands::generate::{run as generate, MnemonicStrength};
use onecipher::commands::git_cmd::{init, log, secret_file, status, Commit, StatusEntry};
use onecipher::commands::history::{
    documents, format_timestamp, list as history_list, note, outside_store, version_document,
};
use onecipher::commands::key::{
    check_revoke, check_wallets, create as key_create, list as key_list, needs_passphrase, revoke,
    CreatedKey, ListedKey,
};
use onecipher::commands::migrate::{
    check_recipients, recipients_path, rollback_lines, run as migrate, Migrated,
};
use onecipher::commands::password::{
    add_metadata, add_source, added_message, generate as generate_password, get as get_password,
    unknown_generator, PasswordSource,
};
use onecipher::commands::pay::{
    account, check_scheme, discover, discover_heading, namespace_of, run as pay, sign_payload,
    supported_chains, PayCode,
    Payment, Service,
};
use onecipher::commands::pay_x402::{body_bytes, run as pay_x402, Outcome};
use onecipher::commands::sbom::{
    choose_generator, generate as sbom, generated_message, verify, Generator,
};
use onecipher::commands::secret::{Disclosure, OpenedSecret, SecretPayload};
use onecipher::commands::service::{
    install, report, status as service_status, uninstall, unit_path, unit_text, Action,
    ActionResult,
};
use onecipher::commands::session_key::{
    authorization, create as create_session, list as list_sessions, session_key_status_name,
    SessionKeyInfo,
};
use onecipher::commands::sign_in::{
    choose_verifier, decode_signature, message_document, message_error, parse_error,
    parsed_document, part_error, reference_error, run_message, run_nonce, run_parse, run_verify,
    verification_error, verified_document, verified_line, Expected, FileRead, MessageArgs,
    Namespace, ParsedMessage, Part, Verifier,
};
use onecipher::commands::sign_message::{
    after_failure, check_input, choose_signer, enclave_input, encode_message, payload,
    signature_document, AfterFailure, Payload, Signer,
};
use onecipher::commands::sign_transaction::{check_pairing, tx_bytes, wc_params, wc_signature};
use onecipher::commands::status::{run as status_run, StatusProbe};
use onecipher::commands::totp::{
    add_metadata as totp_metadata, add_seed, code_document, generate as totp_generate, hotp_extra,
    uris, Seed,
};
use onecipher::commands::vault::{unlock, Attempt, Tried};
use onecipher::commands::verify as verify_cmd;
use onecipher::commands::wallet;
use onecipher::commands::wc::{
    connect, control_socket_path, dapp_params, dapp_receive, dapp_response, dapp_send, dapp_wait,
    decode_message, disconnect, pair, plain_envelope, probe, probe_payload, probe_received,
    probe_timeout, probe_wait, published, relay_config, relay_error, relay_id_string,
    resolve_relay, sessions, subscribe_message, DappStep, PairReply, ProbeStep, RelaySources,
    RelayStep, Sealed, StoredPairing, StoredSession,
};
use onecipher::commands::webui::{
    build_url, ensure_webui_enabled, open, started_url, wait_step, Wait,
};
use onecipher::enclave_spawn::{
    passphrase_credential_hex, response_hex, sanitize_enclave_error, spawn_error,
};
use onecipher::environment::Environment;
use onecipher::error::CliError;
use onecipher::netagent::{
    decode_ok, list_session_keys_unsupported, lock_file_path, next_step, timed_out, Answer, Step,
};
use onecipher::order::{comes_before, ranking, stable_order};

fn text(s: &str) -> String {
    s.to_string()
}

fn some(s: &str) -> Option<String> {
    Some(s.to_string())
}

fn texts(v: &[&str]) -> Vec<String> {
    v.iter().map(|s| s.to_string()).collect()
}

fn json(s: &str) -> serde_json::Value {
    serde_json::from_str(s).unwrap()
}

// Configuration

#[test]
fn settings_are_changed() {
    let t = config::set(&some(r#"{"a":1}"#), "vault_path", "/v").unwrap().unwrap();
    assert_eq!(json(&t), json(r#"{"a":1,"vault_path":"/v"}"#));
    let t = config::set(&None, "rpc.eip155:1", "http://n").unwrap().unwrap();
    assert_eq!(json(&t), json(r#"{"rpc":{"eip155:1":"http://n"}}"#));
    let t = config::set(&Some(t), "webui.enabled", "yes").unwrap().unwrap();
    assert_eq!(json(&t), json(r#"{"rpc":{"eip155:1":"http://n"},"webui":{"enabled":true}}"#));
    let t = config::set(&Some(t), "webui.session_timeout_secs", "60").unwrap().unwrap();
    assert_eq!(json(&t)["webui"]["session_timeout_secs"], 60);
    assert_eq!(json(&t)["webui"]["enabled"], true);
    assert!(config::set(&some("["), "vault_path", "/v").unwrap_err().message().contains("invalid config"));
    assert!(config::set(&some("[]"), "vault_path", "/v").unwrap().is_none());
    assert!(config::set(&some("null"), "vault_path", "/v").unwrap().is_some());
}

#[test]
fn bad_settings_are_refused() {
    assert!(config::set(&some("["), "x", "1").unwrap_err().message().contains("invalid config"));
    let saved = relay_config(" wss://x ", &None).unwrap().url;
    let t = config::write(&some(r#"{"a":1,"wc":{"b":2}}"#), saved).unwrap().unwrap();
    let v: serde_json::Value = serde_json::from_str(&t).unwrap();
    assert_eq!(v["wc"]["relay_url"], "wss://x");
    assert!(v["a"] == 1 && v["wc"]["b"] == 2);
    let change = || parse_change("vault_path", "/v").unwrap();
    assert!(config::write(&some("[]"), change()).unwrap().is_none());
    assert!(config::write(&some("["), change()).unwrap_err().message().contains("invalid config"));
    assert!(config::write(&None, change()).unwrap().is_some());
    assert!(config::set(&None, "x", "1").unwrap_err().message().contains("unknown config key 'x'"));
    assert!(config::set(&None, "webui.enabled", "maybe").is_err());
    assert!(config::set(&None, "webui.approval_timeout_secs", "-1").is_err());
    assert!(config::set(&None, "webui.x", "1").is_err());
    assert!(parse_bool("on").unwrap() && !parse_bool("0").unwrap());
    assert!(parse_bool("ON").is_err());
    assert_eq!(parse_change("rpc.a.b", "u").unwrap().field, "a.b");
    assert_eq!(set_message("k", "v", "/c"), "Set k = v\nConfig: /c\n");
}

#[test]
fn configurations_are_shown() {
    let e = |key: &str, url: &str| Endpoint {
        key: text(key),
        url: text(url),
        default_url: some("d"),
    };
    let lines = show("/v", "/c", false, &vec![e("b", "d"), e("a", "x")]);
    assert_eq!(lines[0], "Vault:  /v");
    assert_eq!(lines[1], "Config: /c (not found — using defaults)");
    assert!(lines[4].starts_with("  a ") && lines[4].ends_with("x (custom)"));
    assert!(lines[5].starts_with("  b ") && lines[5].ends_with("d (default)"));
}

// Mnemonics

#[test]
fn word_counts_are_checked() {
    assert_eq!(generate(12).unwrap(), MnemonicStrength::Words12);
    assert_eq!(generate(24).unwrap(), MnemonicStrength::Words24);
    assert!(generate(13).unwrap_err().message().contains("--words must be"));
}

#[test]
fn derivations_are_planned() {
    let v = plan(3, &None, Some(2)).unwrap();
    assert!(matches!(v[0].place, Place::Index(3)) && matches!(v[1].place, Place::Index(4)));
    assert_eq!(v[1].label, Some(4));
    let v = plan(3, &some("m/1"), None).unwrap();
    assert!(matches!(&v[0].place, Place::Path(p) if p == "m/1"));
    assert!(plan(0, &some("m/1"), Some(2)).is_err());
    assert!(plan(0, &None, Some(0)).unwrap().is_empty());
    assert_eq!(address_line(None, "0xa", &None), "0xa");
    assert!(address_line(Some(4), "0xa", &Some(vec![1])).starts_with("[4] 0xa"));
    assert_eq!(chain_line("eip155:1", "0xa", &None), "eip155:1 → 0xa");
}

// Git

fn commit(message: &str, time: i64) -> Commit {
    Commit { oid: text("0123456789abcdef"), author: text("me"), message: text(message), time }
}

#[test]
fn repositories_are_described() {
    let p = init("/r", false, &some("git@x"));
    assert!(p.create);
    assert_eq!(p.message, "git: initialized repository at /r");
    assert_eq!(p.remote.unwrap().message, "git: set remote 'origin' -> git@x");
    assert!(!init("/r", true, &None).create);
    assert_eq!(secret_file("a/b"), "secrets/a/b.age");
    assert_eq!(log(&None, &vec![]), texts(&["git: no commits yet"]));
    assert_eq!(log(&some("a"), &vec![]), texts(&["git: no history for 'a'"]));
    assert!(log(&None, &vec![commit("init", 0)])[0].contains("init"));
    assert_eq!(status(&vec![]), texts(&["git: working tree clean"]));
    let e = StatusEntry { status: text("modified"), path: text("p") };
    assert!(status(&vec![e])[0].contains("p"));
}

#[test]
fn history_is_dated() {
    assert_eq!(format_timestamp(0), "1970-01-01 00:00:00");
    assert_eq!(format_timestamp(1_700_000_000), "2023-11-14 22:13:20");
    assert_eq!(format_timestamp(i64::MAX), "t:9223372036854775807");
    assert_eq!(history_list(&vec![commit("a", 0), commit("b", 1)], 1).len(), 1);
    assert!(note("n", 0, false).unwrap().contains("no history found for 'n'"));
    assert_eq!(note("n", 1, false), None);
    assert!(note("n", 1, true).unwrap().contains("cannot be displayed"));
    assert!(outside_store().message().contains("outside store root"));
    assert_eq!(version_document(&commit("m", 0), false)["message"], "m");
    let both = vec![commit("a", 0), commit("b", 1)];
    assert!(documents(&both, 0, false).is_empty());
    let docs = documents(&both, 9, true);
    assert_eq!((docs.len(), &docs[1]["message"]), (2, &serde_json::Value::from("b")));
    assert_eq!(docs[0]["date"], "1970-01-01 00:00:00");
    assert!(docs[0].get("password").is_some());
    let docs = documents(&both, 1, false);
    assert_eq!((docs.len(), docs[0].get("password")), (1, None));
}

// Keys of agents

#[test]
fn keys_are_described() {
    assert!(check_wallets(&vec![]).is_err() && check_wallets(&texts(&["w"])).is_ok());
    assert!(needs_passphrase(&vec![true, false]) && !needs_passphrase(&vec![true]));
    let k = CreatedKey {
        id: text("k1"),
        name: text("bot"),
        wallet_ids: texts(&["w"]),
        policy_ids: vec![],
        expires_at: None,
    };
    assert!(key_create(&k).contains("k1"));
    assert_eq!(key_list(&vec![]), "No API keys found.\n");
    let l = ListedKey {
        id: text("k1"),
        name: text("bot"),
        wallet_ids: vec![],
        policy_ids: vec![],
        expires_at: some("t"),
        created_at: text("c"),
    };
    assert!(key_list(&vec![l]).contains("bot"));
    assert!(check_revoke(false).is_err() && check_revoke(true).is_ok());
    assert_eq!(revoke("k1", "bot"), "API key revoked: k1 (bot)");
}

#[test]
fn migrations_are_described() {
    assert_eq!(recipients_path("/v"), "/v/.age-recipients");
    assert!(check_recipients("/p", false).unwrap_err().message().contains("/p"));
    assert!(check_recipients("/p", true).is_ok());
    assert!(rollback_lines(2)[0].contains("removed 2"));
    let m = Migrated { wallet_name: text("w"), wallet_id: text("i"), entry_name: text("e") };
    assert!(migrate(&vec![m], true).len() >= 1);
    assert!(unsupported_shell("tcsh").message().contains("unsupported shell: tcsh"));
}

// Passwords and codes

fn opened() -> OpenedSecret {
    OpenedSecret {
        name: text("n"),
        item_type: text("password"),
        kind: text("Secret"),
        payload: SecretPayload { secret: text("pw"), notes: None, extra: None },
        metadata: text("{}"),
    }
}

#[test]
fn passwords_are_handled() {
    let m = add_metadata("u", "n");
    assert_eq!((m.url.as_deref(), m.username.as_deref()), (Some("u"), Some("n")));
    let s = add_source(true, 20, false);
    assert_eq!(s, PasswordSource::Generate { length: 20, symbols: false });
    assert_eq!(add_source(false, 20, true), PasswordSource::Read);
    assert_eq!(added_message("a"), "Password added: a");
    assert!(matches!(get_password(&opened(), true, true), Disclosure::Envelope));
    assert!(matches!(get_password(&opened(), true, false), Disclosure::Copy(s) if s == "pw"));
    assert!(matches!(generate_password("x", true), Disclosure::Qr(_)));
    assert!(matches!(generate_password("x", false), Disclosure::Print(s) if s == "x\n"));
    assert!(unknown_generator("z").message().contains("unknown generator 'z'"));
}

#[test]
fn codes_are_handled() {
    let s = add_seed(&some("otpauth://x"), &None, &None, &None).unwrap();
    assert!(matches!(&s, Seed::Uri(u) if u == "otpauth://x"));
    assert_eq!(totp_metadata(&s, &some("i"), &None).issuer.as_deref(), Some("i"));
    let s = add_seed(&None, &some("S"), &some("i"), &some("a")).unwrap();
    assert_eq!(totp_metadata(&s, &None, &None).account.as_deref(), Some("a"));
    assert!(add_seed(&None, &None, &None, &None).is_err());
    assert!(add_seed(&None, &some("S"), &None, &None).is_err());
    assert!(add_seed(&None, &some("S"), &some("i"), &None).is_err());
    let d = code_document("n", "Secret", "totp", Some(7), "123456");
    assert_eq!((&d["code"], &d["counter"]), (&json("\"123456\""), &json("7")));
    assert!(code_document("n", "k", "t", None, "1").get("counter").is_none());
    assert!(matches!(totp_generate("1", true), Disclosure::Qr(_)));
    assert!(matches!(uris("u", false), Disclosure::Print(s) if s == "u\n"));
    let e = hotp_extra(Some(json(r#"{"x":1}"#)), 7).unwrap();
    assert_eq!(e, json(r#"{"x":1,"hotp_counter":8}"#));
    assert_eq!(hotp_extra(None, 0).unwrap(), json(r#"{"hotp_counter":1}"#));
    assert!(hotp_extra(Some(json("[]")), 0).is_none());
    assert!(hotp_extra(None, u64::MAX).is_none());
}

// Payments

#[test]
fn payments_are_described() {
    assert_eq!(namespace_of("eip155:8453"), "eip155");
    assert_eq!(supported_chains(&vec![Some(2), None, Some(2), Some(1)], 9), vec![2, 1]);
    assert_eq!(supported_chains(&vec![None], 9), vec![9]);
    assert_eq!(account("eip155:1", &Ok(texts(&["solana:x", "eip155:8453"]))).unwrap(), 1);
    let f = account("eip155:1", &Ok(texts(&["solana:x"]))).unwrap_err();
    assert_eq!((f.code, f.message.as_str()), (PayCode::WalletNotFound, "no eip155 account in wallet"));
    let f = account("eip155:1", &Err(text("gone"))).unwrap_err();
    assert_eq!((f.code, f.message.as_str()), (PayCode::WalletNotFound, "gone"));
    assert!(check_scheme("exact").is_ok());
    let f = sign_payload("upto", &Ok(text("ab"))).unwrap_err();
    assert_eq!(f.code, PayCode::ProtocolUnknown);
    assert_eq!(f.message, "unsupported payment scheme: upto");
    assert_eq!(sign_payload("exact", &Ok(text("ab"))).unwrap(), "0xab");
    assert_eq!(sign_payload("exact", &Err(text("e"))).unwrap_err().code, PayCode::SigningFailed);
    let p = Some(Payment { amount: text("1"), network: text("base") });
    assert!(pay(200, "x402", &p).unwrap().contains("base"));
    assert_eq!(discover_heading(10, 0, 5), "No services found.");
    assert_eq!(discover_heading(10, 5, 20), "Showing 11-15 of 20 services:\n");
    let s = Service {
        price: text("$1"),
        network: text("base"),
        description: text("d"),
        url: text("http://s"),
    };
    assert!(discover(&vec![s]).contains("http://s"));
    assert_eq!(pay_x402(&Outcome::Paid(vec![1, 255])), "payment OK; receipt: 01ff");
    assert_eq!(pay_x402(&Outcome::Unknown(-3)), "payment unknown status: -3");
    assert_eq!(pay_x402(&Outcome::Denied(text("r"))), "payment DENIED: r");
    assert_eq!(pay_x402(&Outcome::Failed(text("e"))), "payment ERROR: e");
    assert_eq!(body_bytes(&some("é")), "é".as_bytes());
    assert!(body_bytes(&None).is_empty());
}

// Bills of materials

const MANIFEST: &str = "[package]\nname = \"app\"\nversion = \"1.2.3\"\n\n[[package]]\n";

#[test]
fn generated_lists_verify() {
    assert!(sbom(MANIFEST).is_err());
    let v = sbom("[package]\nname = \"app\"\nversion = \"1.2.3\"\n[dependencies]\nserde = \"1\"\n")
        .unwrap();
    let line = verify("f", &Some(serde_json::to_vec(&v).unwrap())).unwrap();
    assert!(line.contains("f"));
    assert!(verify("f", &None).unwrap_err().message().contains("SBOM file not found: f"));
    assert_eq!(verify("f", &Some(b"{".to_vec())).unwrap_err().code(), "JSON_ERROR");
    assert!(verify("f", &Some(b"{}".to_vec())).is_err());
    assert_eq!(generated_message("o", 3), "Minimal SBOM generated: o (3 components)");
    assert_eq!(choose_generator(None), Generator::Minimal);
    assert_eq!(choose_generator(Some(true)), Generator::Tool);
}

// Services

#[test]
fn units_are_written() {
    assert!(unit_text("/bin/oc").contains("ExecStart=/bin/oc --daemon\n"));
    assert!(unit_path("/h").ends_with("/onecipher.service"));
    assert!(!report(Action::Reload, &ActionResult::Success).warning);
    let r = report(Action::Enable, &ActionResult::Failure(text("exit status: 1")));
    assert!(r.warning && r.line.contains("exited with exit status: 1"));
    assert!(report(Action::Disable, &ActionResult::Unavailable).line.contains("'systemctl'"));
    assert_eq!(install("/u"), "Wrote systemd user unit: /u");
    assert!(uninstall("/u", false).contains("already uninstalled"));
    assert!(service_status("/u", true).ends_with("(present)"));
    let lines = status_run(&StatusProbe {
        key_agent: true,
        key_agent_socket: text("/k"),
        vault_path: text("/v"),
        wallets: 2,
        wc_daemon: false,
        control_socket: text("/c"),
    });
    assert_eq!(lines[0], "Key-Agent: RUNNING (socket: /k)");
    assert_eq!(lines[1], "Vault:     /v (2 wallet(s))");
    assert_eq!(lines[2], "WC Daemon: STOPPED (control: /c)");
}

// Session keys

#[test]
fn session_keys_are_described() {
    let a = authorization("0102", "ff", "c").unwrap();
    assert_eq!((a.challenge, a.signature), (vec![1, 2], vec![255]));
    assert!(authorization("x", "ff", "c").unwrap_err().message().contains("challenge"));
    assert!(authorization("00", "f", "c").unwrap_err().message().contains("signature"));
    assert_eq!(create_session("s"), "session key created: s");
    assert_eq!(session_key_status_name(99), "99");
    assert_eq!(list_sessions(&vec![]), texts(&["(no session keys)"]));
    let k = SessionKeyInfo { session_key_id: text("s"), label: text("l"), status: 1 };
    assert!(list_sessions(&vec![k])[0].contains("s"));
}

// Signing

fn args() -> MessageArgs {
    MessageArgs {
        domain: text("d"),
        address: text("0xa"),
        uri: text("u"),
        statement: some("st"),
        nonce: None,
        issued_at: None,
        expiration_time: None,
        not_before: None,
        request_id: None,
        resources: vec![],
    }
}

#[test]
fn sign_in_messages_are_planned() {
    let p = run_message("eip155:1", &args()).unwrap();
    assert!(matches!(p.namespace, Namespace::Evm));
    assert_eq!(p.reference, "1");
    assert_eq!((p.domain.as_str(), p.address.as_str(), p.uri.as_str()), ("d", "0xa", "u"));
    assert!(p.parts.iter().any(|q| matches!(q, Part::Statement(s) if s == "st")));
    assert!(run_message("1", &args()).is_err());
    assert!(run_message("cosmos:1", &args()).is_err());
    assert!(part_error(&Part::IssuedAt(text("x")), "bad").message().contains(": bad"));
    assert!(reference_error(Namespace::Evm, "x").message().contains("invalid EVM chain id: x"));
}

fn expected() -> Expected {
    Expected {
        domain: text("d"),
        nonce: text("n"),
        uri: some("u"),
        scheme: None,
        chain_id: some("1"),
    }
}

#[test]
fn sign_in_messages_are_verified() {
    let p = run_verify(&some("m"), &None, "0x0102", "eip155:1", expected()).unwrap();
    assert_eq!((p.expected.domain.as_str(), p.expected.nonce.as_str()), ("d", "n"));
    assert_eq!((&p.expected.uri, &p.expected.chain_id), (&some("u"), &some("1")));
    assert_eq!((p.text.as_str(), p.signature), ("m", vec![1, 2]));
    let f = Some(FileRead { path: text("/f"), content: Ok(text("from file")) });
    assert_eq!(run_verify(&None, &f, "01", "eip155:1", expected()).unwrap().text, "from file");
    assert!(run_verify(&None, &None, "01", "eip155:1", expected()).is_err());
    assert_eq!(decode_signature("2g", "solana").unwrap(), vec![97]);
    assert!(decode_signature("0OIl", "solana").is_err());
    assert!(decode_signature("zz", "eip155").is_err());
    assert!(matches!(choose_verifier(Namespace::Evm, &None), Ok(Verifier::Evm)));
    assert!(choose_verifier(Namespace::Solana, &some("u")).is_err());
}

#[test]
fn parsed_messages_are_shown() {
    let m = ParsedMessage {
        domain: text("example.com"),
        address: text("0xa"),
        uri: text("u"),
        version: text("1"),
        chain_id: text("1"),
        chain_name: None,
        statement: some("st"),
        nonce: text("n"),
        issued_at: text("t"),
        expiration_time: None,
        not_before: None,
        request_id: None,
        resources: texts(&["r1"]),
    };
    let lines = run_parse(&m);
    assert!(lines[0].contains("example.com"));
    assert!(lines.iter().any(|l| l.contains("r1")));
    assert_eq!(
        parsed_document(&m),
        json(
            r#"{"domain":"example.com","address":"0xa","uri":"u","version":"1","chain_id":"1",
                "chain_name":null,"statement":"st","nonce":"n","issued_at":"t",
                "expiration_time":null,"not_before":null,"request_id":null,"resources":["r1"]}"#
        )
    );
    assert_eq!(
        message_document("eip155:1", "sign me", &m),
        json(
            r#"{"chain":"eip155:1","message":"sign me","domain":"example.com","address":"0xa",
                "uri":"u","version":"1","chain_id":"1","nonce":"n","issued_at":"t",
                "expiration_time":null,"not_before":null}"#
        )
    );
    assert_eq!(
        verified_document("eip155:1", &m),
        json(r#"{"valid":true,"chain":"eip155:1","domain":"example.com","address":"0xa"}"#)
    );
    assert_eq!(verified_line(), "Signature is valid.");
}

#[test]
fn sign_in_failures_are_told_apart() {
    assert_eq!(message_error("x").message(), "invalid message: x");
    assert_eq!(parse_error("x").message(), "invalid CAIP-122 message: x");
    assert_eq!(verification_error("x").message(), "verification failed: x");
    assert_eq!(run_nonce(&Ok(text("abc"))).unwrap(), "abc");
    assert_eq!(run_nonce(&Err(text("x"))).unwrap_err().message(), "invalid nonce length: x");
}

#[test]
fn messages_are_encoded() {
    assert_eq!(encode_message("hi", "utf8").unwrap(), b"hi");
    assert_eq!(encode_message("0102", "hex").unwrap(), vec![1, 2]);
    assert!(encode_message("zz", "hex").is_err());
    assert!(encode_message("hi", "rot13").is_err());
    assert!(check_input(&None, &None).is_err() && check_input(&some("m"), &None).is_ok());
    assert_eq!(choose_signer(true, true), Signer::Library);
    assert_eq!(choose_signer(false, true), Signer::Enclave);
    assert_eq!(choose_signer(false, false), Signer::Local);
    let p = payload(&some("hi"), "utf8", &None, true).unwrap();
    let i = enclave_input(&p);
    assert_eq!((i.typed, i.payload_hex.as_str()), (false, "6869"));
    let p = payload(&None, "utf8", &some("{}"), true).unwrap();
    assert!(matches!(&p, Payload::TypedData(t) if t == "{}"));
    assert!(payload(&None, "utf8", &some("{}"), false).is_err());
    assert!(matches!(after_failure("E_DECRYPT: x", false, true), AfterFailure::AskAgain));
    assert!(matches!(after_failure("E_DECRYPT: x", true, true), AfterFailure::Fail(_)));
    assert!(matches!(after_failure("x", false, true), AfterFailure::Fail(CliError::KeyAgent(_))));
    assert_eq!(signature_document("ab", Some(1)), json(r#"{"signature":"ab","recovery_id":1}"#));
}

#[test]
fn transactions_are_decoded() {
    assert_eq!(tx_bytes("0x0102").unwrap(), vec![1, 2]);
    assert!(tx_bytes("0x1").unwrap_err().message().contains("invalid hex transaction: "));
    assert!(check_pairing(false).is_err());
    assert_eq!(wc_params("0xab"), json(r#"{"tx":"0xab"}"#));
    let s = wc_signature(&json(r#"{"signature":"ab","recovery_id":1}"#)).unwrap();
    assert_eq!((s.signature.as_str(), s.recovery_id), ("ab", Some(1)));
    assert!(wc_signature(&json("{}")).is_err());
}

fn verify_input() -> verify_cmd::VerifyInput {
    verify_cmd::VerifyInput {
        address: text("0xa"),
        message: some("m"),
        typed_data: None,
        typed_data_file: None,
        hash: None,
        no_hash: false,
        signature: text("0x01"),
    }
}

#[test]
fn signatures_are_checked() {
    let c = verify_cmd::run(true, &verify_input()).unwrap();
    assert!(matches!(c.payload, verify_cmd::Payload::Text(t) if t == "m"));
    assert!(verify_cmd::run(false, &verify_input()).is_err());
    let mut i = verify_input();
    i.signature = text("zz");
    assert!(verify_cmd::run(true, &i).unwrap_err().message().contains("invalid signature hex"));
    let mut i = verify_input();
    i.message = None;
    assert!(verify_cmd::run(true, &i).is_err());
    assert_eq!(verify_cmd::verdict(true).0, "Signature is valid.");
    assert!(verify_cmd::verdict(false).1.is_err());
}

// Wallets

#[test]
fn passphrases_are_changed() {
    assert!(wallet::change_password("a", "b", &some("b")).is_ok());
    let e = wallet::change_password("a", "b", &some("c")).unwrap_err();
    assert!(e.message().contains("do not match"));
    let e = wallet::change_password("a", "a", &None).unwrap_err();
    assert!(e.message().contains("must differ"));
    let mut env = Environment::new();
    env.set(text("ONECIPHER_NEW_PASSPHRASE"), text("n"));
    assert!(wallet::new_passphrase(&None, &mut env, false).is_ok());
    assert!(wallet::new_passphrase(&None, &mut env, false).is_err());
    assert!(wallet::old_passphrase(&None, &env, false).is_err());
    assert!(wallet::old_passphrase(&some("p"), &env, false).is_ok());
    assert!(wallet::asks_confirmation(true, &None) && !wallet::asks_confirmation(true, &some("x")));
}

#[test]
fn wallets_are_imported() {
    let mut env = Environment::new();
    env.set(text("ONECIPHER_SECP256K1_KEY"), text("k"));
    let keys = wallet::take_curve_keys(&mut env);
    assert_eq!(keys.secp256k1.as_deref(), Some("k"));
    assert!(env.get("ONECIPHER_SECP256K1_KEY").is_none());
    let none = wallet::CurveKeys { secp256k1: None, ed25519: None };
    assert_eq!(wallet::import(true, false, &none).unwrap(), wallet::ImportSource::Mnemonic);
    assert_eq!(wallet::import(false, true, &none).unwrap(), wallet::ImportSource::PrivateKey);
    assert!(wallet::import(false, false, &none).is_err());
    assert!(wallet::import(true, true, &none).is_err());
    assert_eq!(wallet::import_choice("2\n").unwrap(), wallet::ImportKind::PrivateKey);
    assert_eq!(wallet::import_choice("\n").unwrap(), wallet::ImportKind::Mnemonic);
    assert!(wallet::import_choice("3").is_err());
    assert!(wallet::typed_secret(wallet::ImportKind::Mnemonic, " ").is_err());
    assert!(wallet::import_interactive(false).is_err());
}

#[test]
fn wallets_are_shown() {
    let w = wallet::WalletInfo {
        id: text("id"),
        name: text("main"),
        created_at: text("now"),
        accounts: vec![wallet::WalletAccount {
            chain_id: text("eip155:1"),
            address: text("0xa"),
            derivation_path: text("m/0"),
            chain_name: some("Ethereum"),
        }],
    };
    let c = wallet::create(&w, "main");
    assert!(c.starts_with("Wallet created: id\nName:           main\n\n"));
    assert!(c.ends_with("  eip155:1 → 0xa\n    Path: m/0\n"));
    assert!(wallet::imported(&w, "main").starts_with("Wallet imported: id\n"));
    assert!(wallet::list(&vec![w]).contains("  eip155:1 (Ethereum) → 0xa\n"));
    assert_eq!(wallet::list(&vec![]), "No wallets found.\n");
    assert!(wallet::export_gate(false, false, true).is_err());
    assert!(wallet::export_gate(false, true, false).is_ok());
    assert!(wallet::is_key_pair("{}") && !wallet::is_key_pair("word"));
    assert!(wallet::export("word word")[1].contains("mnemonic"));
    assert!(wallet::mnemonic_notice(true)[1].contains("FULL ACCESS"));
    assert!(wallet::check_delete(false).is_err());
    assert_eq!(wallet::delete("id", "n"), "Wallet deleted: id (n)");
    assert_eq!(wallet::rename("a", "b"), "Wallet renamed: 'a' -> 'b'");
}

#[test]
fn vaults_are_unlocked() {
    let t = |name: &str, attempt: Attempt| Tried { name: text(name), attempt };
    let u = unlock(vec![t("a", Attempt::Opened)]);
    assert!(u.result.is_ok());
    let u = unlock(vec![t("a", Attempt::WrongPassphrase)]);
    assert!(!u.lines.is_empty() || u.result.is_err());
    let u = unlock(vec![t("a", Attempt::Failed(CliError::Vault(text("x"))))]);
    assert!(u.result.is_err());
}

// WalletConnect

fn pairing() -> StoredPairing {
    StoredPairing::new("t", &Some("11".repeat(32)), &None, 2, &vec![])
}

#[test]
fn pairings_are_answered() {
    assert!(matches!(pair("OK wc:u\n"), PairReply::Uri(u) if u == "wc:u"));
    assert!(matches!(pair("ERR no\n"), PairReply::Refused(e) if e == "ERR no"));
    let t = connect(&some("OK pairing loaded\n"), "t", &None, "/p");
    assert_eq!(t.out[0], "OK pairing loaded");
    let t = connect(&None, "t", &None, "/p");
    assert_eq!(t.out[0], "Pairing saved to /p");
    let t = connect(&some("ERR x"), "t", &None, "/p");
    assert_eq!(t.err, texts(&["daemon responded: ERR x"]));
    assert_eq!(control_socket_path(&some("/run")), "/run/onecipher/control.sock");
}

#[test]
fn sessions_are_disconnected() {
    let s = |topic: &str| StoredSession {
        topic: text(topic),
        sym_key: text(""),
        state: text("Active"),
        expiry_unix: 9,
        methods: texts(&["a", "b"]),
        dapp_name: None,
    };
    assert_eq!(sessions(&vec![]), texts(&["No WalletConnect sessions found."]));
    assert_eq!(sessions(&vec![s("t")])[0], "  topic=t  state=Active  expiry=9  methods=a,b");
    let d = disconnect(&vec![s("a"), s("t"), s("t")], &Some(pairing()), "t");
    assert_eq!(d.sessions, Some(vec![0]));
    assert!(d.pairing);
    let d = disconnect(&vec![s("a")], &None, "t");
    assert_eq!((d.sessions, d.pairing), (None, false));
}

fn sources() -> RelaySources {
    RelaySources {
        url_override: None,
        project_override: None,
        configured_url: text(""),
        configured_project: text(""),
        env_url: None,
        env_project: None,
    }
}

#[test]
fn relays_are_resolved() {
    assert_eq!(resolve_relay(&sources()), (text("wss://relay.walletconnect.com"), None));
    let mut s = sources();
    s.env_url = some("wss://e");
    s.env_project = some("p");
    assert_eq!(resolve_relay(&s), (text("wss://e"), some("p")));
    s.configured_url = text("wss://c");
    assert_eq!(resolve_relay(&s).0, "wss://c");
    assert_eq!(resolve_relay(&s).0, onecipher::daemon::relay_url(&s.env_url, "wss://c"));
    s.url_override = some("wss://o");
    assert_eq!(resolve_relay(&s).0, "wss://o");
    assert!(relay_config(" wss://x ", &some("p")).is_ok());
    assert!(relay_config("http://x", &None).is_err());
    assert!(relay_config("wss://x", &some(" ")).unwrap().project.is_err());
    let a = relay_id_string(1_700_000_000_000, 1);
    let b = relay_id_string(1_700_000_000_001, 0);
    assert_eq!(a.len(), 19);
    assert!(a < b);
}

fn delivery(topic: &str, bytes: &str) -> String {
    format!(
        r#"{{"method":"irn_subscription","params":{{"data":{{"topic":"{topic}","message":"{bytes}"}}}}}}"#
    )
}

#[test]
fn probes_are_echoed() {
    let payload = probe_payload("now");
    assert_eq!(json(&payload), json(r#"{"probe":true,"ts":"now"}"#));
    let envelope = plain_envelope(&payload);
    assert_eq!(decode_message(&envelope).unwrap()[1..], *payload.as_bytes());
    let echo = probe(&delivery("t", &envelope), "t").unwrap();
    assert!(matches!(echo, ProbeStep::Echo(s) if s.starts_with("relay echo received on t: ")));
    assert!(matches!(probe(&delivery("u", &envelope), "t").unwrap(), ProbeStep::Wait));
    assert!(matches!(probe(&delivery("t", "AAAA"), "t").unwrap(), ProbeStep::WrongEnvelope));
    assert!(probe("{", "t").unwrap_err().message().contains("bad relay message: "));
    assert!(probe(&delivery("t", "*"), "t").unwrap_err().message().contains("invalid base64: "));
    let s = json(&subscribe_message("7", "t"));
    assert_eq!((&s["method"], &s["params"]["topic"]), (&json("\"irn_subscribe\""), &json("\"t\"")));
    assert_eq!((probe_timeout(0), probe_timeout(9)), (1, 9));
    assert_eq!(probe_wait(0, 0).unwrap(), 1);
    assert_eq!(probe_wait(9_000_000_000, 9).unwrap(), 9);
    let e = probe_wait(9_000_000_001, 9).unwrap_err();
    assert_eq!(e.message(), "timeout waiting for relay echo");
    let e = probe_received(&Ok(None), "t").unwrap_err();
    assert_eq!(e.message(), "timeout waiting for relay echo");
    let e = probe_received(&Err(text("gone")), "t").unwrap_err();
    assert_eq!(e.message(), "relay recv: gone");
    let r = probe_received(&Ok(some(r#"{"method":"x"}"#)), "t").unwrap();
    assert!(matches!(r, ProbeStep::Wait));
    assert!(dapp_wait(30_000_000_000).is_ok());
    let e = dapp_wait(30_000_000_001).unwrap_err();
    assert_eq!(e.message(), "timeout waiting for response");
    assert_eq!(relay_error(RelayStep::Connect, "x").message(), "relay connect failed: x");
    assert_eq!(relay_error(RelayStep::Subscribe, "x").message(), "subscribe failed: x");
    assert_eq!(relay_error(RelayStep::Publish, "x").message(), "publish failed: x");
    assert_eq!(relay_error(RelayStep::Encrypt, "x").message(), "encrypt failed: x");
    assert_eq!(relay_error(RelayStep::Decrypt, "x").message(), "decrypt failed: x");
    assert_eq!(published(&vec![0, 1, 2]), "AAEC");
}

#[test]
fn requests_are_sent() {
    let d = dapp_send("t", "ping", "[1]", &None, &Some(pairing()), 5).unwrap();
    assert_eq!(d.sym_key, vec![0x11; 32]);
    let r = json(&d.request);
    assert_eq!((&r["id"], &r["method"], &r["params"]), (&json("5"), &json("\"ping\""), &json("[1]")));
    assert!(dapp_params("{").unwrap_err().message().starts_with("invalid params JSON: "));
    assert_eq!(dapp_params("[1]").unwrap()[0], 1);
    assert!(dapp_send("t", "m", "{", &None, &Some(pairing()), 5).is_err());
    assert!(dapp_send("t", "m", "[]", &None, &None, 5).is_err());
    assert!(dapp_send("t", "m", "[]", &some("0x11"), &None, 5).is_err());
    assert!(dapp_send("t", "m", "[]", &some("zz"), &None, 5).is_err());
    let sealed = dapp_receive(&delivery("t", "AAEC"), "t").unwrap();
    assert!(matches!(sealed, DappStep::Open(Sealed::Type0, b) if b == vec![0, 1, 2]));
    let sealed = dapp_receive(&delivery("t", "AQEC"), "t").unwrap();
    assert!(matches!(sealed, DappStep::Open(Sealed::Type1, _)));
    assert!(dapp_response(&br#"{"id":5,"result":1}"#.to_vec(), 5).unwrap().is_some());
    assert!(dapp_response(&br#"{"id":6}"#.to_vec(), 5).unwrap().is_none());
    assert!(dapp_response(&b"{".to_vec(), 5).is_err());
}

// The web interface

#[test]
fn test_open_missing_port_file() {
    let err = started_url("/h", &None, &None).unwrap_err().message();
    assert!(err.contains("Timed out") || err.contains("port file not found"));
    let err = build_url("/h", &None, &None).unwrap_err().message();
    assert!(err.contains("port file not found"));
}

#[test]
fn test_build_url_with_port_but_no_token() {
    let url = build_url("/h", &some("9876"), &None).unwrap();
    assert_eq!(url, "http://127.0.0.1:9876/");
}

#[test]
fn test_build_url_with_port_and_token() {
    let url = build_url("/h", &some("3000"), &some("tok123")).unwrap();
    assert_eq!(url, "http://127.0.0.1:3000/register?bootstrap=tok123");
}

#[test]
fn browsers_are_opened() {
    assert_eq!(open("u", Some(true)), texts(&["Opening Web UI: u"]));
    assert_eq!(open("u", Some(false)).len(), 3);
    assert_eq!(wait_step(0, true), Wait::Settle);
    assert_eq!(wait_step(0, false), Wait::Again);
    assert_eq!(wait_step(u64::MAX, true), Wait::GiveUp);
    assert_eq!(ensure_webui_enabled(true, "/c"), None);
    assert_eq!(ensure_webui_enabled(false, "/c").unwrap(), "Enabled webui in /c");
}

// The agents

#[test]
fn enclave_errors_are_sanitized() {
    assert_eq!(passphrase_credential_hex("hi"), "6869");
    assert_eq!(spawn_error("E_DECRYPT: x", "shown"), "shown");
    assert_eq!(spawn_error("boom", "shown"), "E_INTERNAL: shown");
    assert_eq!(response_hex(&some("0102"), "sig").unwrap(), vec![1, 2]);
    assert!(response_hex(&None, "sig").unwrap_err().contains("sig"));
    assert!(response_hex(&some("x"), "sig").is_err());
    assert_eq!(sanitize_enclave_error("a"), sanitize_enclave_error("b"));
}

#[test]
fn agents_are_spawned_under_a_lock() {
    assert_eq!(lock_file_path(&some("/h")), "/h/.onecipher/agent.spawn-lock");
    assert_eq!(next_step(Step::Probe, true, false, 0), Step::Connected);
    assert_eq!(next_step(Step::Probe, false, false, 0), Step::Lock);
    assert_eq!(next_step(Step::Lock, false, true, 0), Step::ProbeLocked);
    assert_eq!(next_step(Step::ProbeLocked, true, false, 0), Step::Connected);
    assert_eq!(next_step(Step::ProbeLocked, false, true, 0), Step::Spawn);
    assert_eq!(next_step(Step::ProbeLocked, false, false, 0), Step::Poll);
    assert_eq!(next_step(Step::Spawn, false, true, 0), Step::Poll);
    assert_eq!(next_step(Step::Poll, false, true, 2999), Step::Poll);
    assert_eq!(next_step(Step::Poll, false, false, 3000), Step::TimedOut);
    assert!(timed_out("/s").contains("/s"));
    assert_eq!(decode_ok(Answer::Response(vec![1])).unwrap(), vec![1]);
    assert!(decode_ok(Answer::Deny(3)).unwrap_err().message().contains("reason code: 3"));
    assert!(decode_ok(Answer::Error(text("x"))).is_err());
    assert!(decode_ok(Answer::Empty).is_err());
    assert!(list_session_keys_unsupported().message().contains("not supported"));
}

#[test]
fn orders_are_stable() {
    assert!(comes_before("a", "b") && comes_before("a", "aa") && !comes_before("b", "a"));
    assert_eq!(stable_order(&texts(&["b", "a", "b", "a"])), vec![1, 3, 0, 2]);
    assert_eq!(ranking(&vec![Some(1), None, Some(5), Some(1)]), vec![2, 0, 3]);
}
