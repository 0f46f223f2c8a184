use onecipher::commands::{
    age_identity_path, age_recipient_public_path, age_recipients_path, daemon_unreachable,
    identity_parse_error, identity_read_error, identity_text, is_interactive_stdin, keys_dir,
    load_recipients, mnemonic_line, parse_item_type, parse_metadata, passphrase_line,
    peek_passphrase, print_qr, private_key_line, read_mnemonic, read_passphrase, read_private_key,
    read_secret_from_env_or_prompt, require_token, resolve_signing_key, secret_line,
    secret_store_root, take_env, take_first_env, take_passphrase, validate_api_token, ApiKey,
    Credential, EmptyTry, ItemType, KeyStep,
};
use onecipher::environment::Environment;
use onecipher::error::IoFault;

fn text(s: &str) -> String {
    s.to_string()
}

fn env(vars: &[(&str, &str)]) -> Environment {
    let mut e = Environment::new();
    for (name, value) in vars {
        e.set(name.to_string(), value.to_string());
    }
    e
}

#[test]
fn take_env_reads_then_removes() {
    let mut e = env(&[("OC_TAKE_ENV_PROBE", "s3cr3t")]);
    assert_eq!(take_env(&mut e, "OC_TAKE_ENV_PROBE").as_deref(), Some("s3cr3t"));
    assert_eq!(take_env(&mut e, "OC_TAKE_ENV_PROBE"), None);
    assert!(e.get("OC_TAKE_ENV_PROBE").is_none());
}

#[test]
fn take_env_missing_is_none() {
    let mut e = env(&[]);
    e.unset("OC_TAKE_ENV_ABSENT");
    assert_eq!(take_env(&mut e, "OC_TAKE_ENV_ABSENT"), None);
}

#[test]
fn take_first_env_prefers_first_and_drains_all() {
    let mut e = env(&[("OC_TAKE_FIRST_A", "first"), ("OC_TAKE_FIRST_B", "second"), ("C", "3")]);
    assert_eq!(
        take_first_env(&mut e, &["OC_TAKE_FIRST_A", "OC_TAKE_FIRST_B"]).as_deref(),
        Some("first")
    );
    assert!(e.get("OC_TAKE_FIRST_A").is_none());
    assert!(e.get("OC_TAKE_FIRST_B").is_none());
    assert_eq!(e.get("C").as_deref(), Some("3"));
}

#[test]
fn take_passphrase_supports_short_aliases() {
    let mut e = env(&[]);
    e.set(text("OWX_PASSPHRASE"), text("alias-pass"));
    assert_eq!(take_passphrase(&mut e).as_deref(), Some("alias-pass"));
    assert!(e.get("OWX_PASSPHRASE").is_none());
    e.set(text("OC_PASSPHRASE"), text("short-pass"));
    assert_eq!(take_passphrase(&mut e).as_deref(), Some("short-pass"));
    assert!(e.get("OC_PASSPHRASE").is_none());
    assert_eq!(take_passphrase(&mut e), None);
}

#[test]
fn peeking_leaves_the_passphrase() {
    let e = env(&[("LWS_PASSPHRASE", "p")]);
    assert_eq!(peek_passphrase(&e).as_deref(), Some("p"));
    assert_eq!(peek_passphrase(&e).as_deref(), Some("p"));
}

#[test]
fn variables_are_replaced() {
    let mut e = env(&[("A", "1"), ("A", "2")]);
    assert_eq!(e.get("A").as_deref(), Some("2"));
    e.unset("A");
    assert_eq!(e.get("A"), None);
}

#[test]
fn print_qr_never_fails_on_oversize_payload() {
    let huge = "X".repeat(10_000);
    let fallback = print_qr(&huge, &Err(text("too long"))).unwrap().unwrap();
    assert_eq!(fallback.text, huge);
    assert_eq!(
        fallback.warning,
        "warn: QR rendering failed (too long); falling back to plaintext"
    );
    assert!(print_qr("", &Ok(())).is_ok());
    assert!(print_qr("hello-qr", &Ok(())).unwrap().is_none());
}

#[test]
fn prompts_need_a_person() {
    assert!(is_interactive_stdin(false, false, true));
    assert!(!is_interactive_stdin(true, false, true));
    assert!(!is_interactive_stdin(false, true, true));
    assert!(!is_interactive_stdin(false, false, false));
}

#[test]
fn credentials_come_from_the_environment_first() {
    let mut e = env(&[("ONECIPHER_MNEMONIC", "a b c")]);
    assert!(matches!(read_mnemonic(&mut e, true), Ok(Credential::Given(m)) if m == "a b c"));
    assert!(matches!(read_mnemonic(&mut e, true), Ok(Credential::Ask(p)) if p == "Enter mnemonic: "));
    let mut e = env(&[("ONECIPHER_PRIVATE_KEY", "0x1")]);
    assert!(matches!(read_private_key(&mut e, false), Ok(Credential::Given(_))));
    assert!(e.get("ONECIPHER_PRIVATE_KEY").is_none());
    let mut e = env(&[("ONECIPHER_SECRET", "s")]);
    assert!(matches!(read_secret_from_env_or_prompt(&mut e, false), Ok(Credential::Given(_))));
    assert!(read_secret_from_env_or_prompt(&mut e, true).is_ok());
}

#[test]
fn passphrases_may_be_empty() {
    let mut e = env(&[]);
    assert!(matches!(read_passphrase(&mut e, false), Credential::Given(p) if p.is_empty()));
    assert!(matches!(read_passphrase(&mut e, true), Credential::Ask(_)));
    e.set(text("ONECIPHER_PASSPHRASE"), text("x"));
    assert!(matches!(read_passphrase(&mut e, true), Credential::Given(p) if p == "x"));
    assert_eq!(passphrase_line("  p \n"), "p");
}

#[test]
fn typed_lines_are_checked() {
    assert_eq!(mnemonic_line(" a b \n").unwrap(), "a b");
    assert!(mnemonic_line(" \n").unwrap_err().message().contains("no mnemonic provided"));
    assert!(private_key_line("").unwrap_err().message().contains("no private key provided"));
    assert!(secret_line("").unwrap_err().message().contains("no secret provided"));
    assert_eq!(secret_line("s\n").unwrap(), "s");
}

#[test]
fn keys_are_tried_without_a_passphrase_first() {
    assert_eq!(resolve_signing_key(EmptyTry::Opened), KeyStep::UseKey);
    assert_eq!(resolve_signing_key(EmptyTry::WrongPassphrase), KeyStep::AskPassphrase);
    assert_eq!(resolve_signing_key(EmptyTry::Failed), KeyStep::GiveUp);
}

#[test]
fn files_have_their_places() {
    assert_eq!(secret_store_root("/h"), "/h/store");
    assert_eq!(keys_dir("/h"), "/h/keys");
    assert_eq!(age_identity_path("/h/"), "/h/keys/age-identity.txt");
    assert_eq!(age_recipient_public_path("/h"), "/h/keys/age-recipient.txt");
    assert_eq!(age_recipients_path("/h"), "/h/.age-recipients");
}

#[test]
fn identities_are_read() {
    assert_eq!(identity_text(" AGE-SECRET \n"), "AGE-SECRET");
    let e = identity_read_error(IoFault::NotFound, "m", "/k");
    assert!(e.message().contains("age identity not found at /k"));
    assert_eq!(identity_read_error(IoFault::Other, "m", "/k").code(), "IO_ERROR");
    assert!(identity_parse_error("x").message().contains("invalid age identity: x"));
    assert!(load_recipients(None).unwrap().is_empty());
    assert_eq!(load_recipients(Some(Ok(vec![text("a")]))).unwrap(), vec!["a"]);
    let e = load_recipients(Some(Err(text("bad")))).unwrap_err();
    assert!(e.message().contains("failed to load recipients: bad"));
    assert!(daemon_unreachable("/s", "refused").message().contains("cannot connect to daemon at /s"));
}

#[test]
fn tokens_expire() {
    assert!(require_token(true, "oc_key_").is_ok());
    assert!(require_token(false, "oc_key_").unwrap_err().message().contains("'oc_key_' prefix"));
    let at: jiff::Timestamp = "2030-01-01T00:00:00Z".parse().unwrap();
    let key = |t: Option<&str>| ApiKey { id: text("k"), expires_at: t.map(text) };
    let never = key(None);
    assert!(validate_api_token(&never, at.as_nanosecond(), "expired").is_ok());
    let later = key(Some("2030-01-01T00:00:01Z"));
    assert!(validate_api_token(&later, at.as_nanosecond(), "expired").is_ok());
    let past = key(Some("2029-12-31T23:59:59Z"));
    assert!(validate_api_token(&past, at.as_nanosecond(), "expired").is_err());
    let bad = key(Some("tomorrow"));
    assert!(validate_api_token(&bad, at.as_nanosecond(), "expired").is_err());
}

#[test]
fn item_types_are_named() {
    assert_eq!(parse_item_type("mnemonic").unwrap(), ItemType::Mnemonic);
    assert_eq!(parse_item_type("PRIVATE_KEY").unwrap(), ItemType::PrivateKey);
    assert_eq!(parse_item_type("private-key").unwrap(), ItemType::PrivateKey);
    assert_eq!(parse_item_type(" totp ").unwrap(), ItemType::Totp);
    assert_eq!(parse_item_type("note").unwrap(), ItemType::Note);
    assert_eq!(parse_item_type("file").unwrap(), ItemType::File);
    assert!(parse_item_type("").is_err());
}

#[test]
fn metadata_is_parsed() {
    let m = parse_metadata(&vec![text("url=https://x"), text("username=u"), text("tags=a,b")]);
    let m = m.unwrap();
    assert_eq!(m.url.as_deref(), Some("https://x"));
    assert_eq!(m.username.as_deref(), Some("u"));
    assert_eq!(m.tags.len(), 2);
    assert!(parse_metadata(&vec![text("nothing")]).is_err());
    assert!(parse_metadata(&vec![text("colour=red")]).is_err());
}
