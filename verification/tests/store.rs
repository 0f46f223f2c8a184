use onecipher::commands::audit_secrets::{
    check_hibp, check_strength, counted_types, duplicates, hibp_status_error, item_type_label,
    print_text, range_query, run as audit_run, sha256_hex, Audited, Opened,
};
use onecipher::commands::doctor::{
    collect_report, count_difference, count_orphan_tmp, ensure_git_template, hardening_status,
    load_tombstones, print_human, repair_floor, run_ext, DoctorProbe, Generation,
    GenerationCensusView, IdentityProbe, IndexProbe, Place, RepairProbe, Scanned, SecretFile,
};
use onecipher::commands::find::{
    fuzzy_score, fuzzy_search, is_separator, print_all, regex_search, run as find_run, shown, Key,
    Selector, Shown, Step,
};
use onecipher::commands::fsck::{
    check_dir_permissions, check_file_permissions, cleaned_index, collect_age_files,
    file_secret_names, filename_to_name, index_names, is_age_file, needs_chmod, orphaned,
    parse_index, run as fsck_run, split_index, AgeFile, DecryptState, FsckProbe, IdentityState,
    PathProbe, PathState, RecipientsState, Status,
};
use onecipher::commands::grep::{print_matches, run as grep_run, GrepEntry};
use onecipher::commands::secret::{
    copy, decryption_failed, delete, edit_command, edit_text, get, list, list_text,
    map_store_error, mv, parse_edited_payload, print_index_entry, rename, update, update_source,
    added, updated, Disclosure, GetRequest, IndexEntry, Move, OpenedSecret, SecretOp,
    SecretPayload, StoreFault, Update, UpdateSource,
};
use onecipher::commands::{ItemType, SecretMetadata};
use onecipher::error::IoFault;

fn text(s: &str) -> String {
    s.to_string()
}

fn some(s: &str) -> Option<String> {
    Some(s.to_string())
}

fn texts(v: &[&str]) -> Vec<String> {
    v.iter().map(|s| s.to_string()).collect()
}

fn json(s: &str) -> serde_json::Value {
    serde_json::from_str(s).unwrap()
}

fn metadata() -> SecretMetadata {
    SecretMetadata {
        url: None,
        username: None,
        chain: None,
        issuer: None,
        account: None,
        tags: vec![],
    }
}

fn item(name: &str, item_type: ItemType) -> IndexEntry {
    IndexEntry {
        name: text(name),
        item_type,
        type_label: text("label"),
        id: text("id"),
        created_at: text("c"),
        updated_at: text("u"),
        metadata: metadata(),
    }
}

fn payload(secret: &str) -> SecretPayload {
    SecretPayload { secret: text(secret), notes: None, extra: None }
}

// Reading and changing secrets

fn opened() -> OpenedSecret {
    OpenedSecret {
        name: text("n"),
        item_type: text("password"),
        kind: text("Secret"),
        payload: SecretPayload { secret: text("s3"), notes: some("hi"), extra: None },
        metadata: text("{}"),
    }
}

fn request(field: Option<&str>, json: bool, qr: bool, copy: bool) -> GetRequest {
    GetRequest { field: field.map(text), json, qr, copy }
}

#[test]
fn secrets_are_disclosed_as_asked() {
    let i = opened();
    let d = get(&i, &request(None, false, false, false)).unwrap();
    assert!(d.is_logged());
    assert!(matches!(&d, Disclosure::Print(s) if s.contains("Secret:    s3\nNotes:     hi\n")));
    let d = get(&i, &request(Some("secret"), false, false, false)).unwrap();
    assert!(matches!(d, Disclosure::Print(s) if s == "s3\n"));
    let d = get(&i, &request(Some("metadata"), false, false, false)).unwrap();
    assert!(matches!(d, Disclosure::Print(s) if s == "{}\n"));
    let d = get(&i, &request(None, true, false, false)).unwrap();
    assert!(matches!(d, Disclosure::Envelope));
    let d = get(&i, &request(Some("notes"), true, true, false)).unwrap();
    assert!(matches!(&d, Disclosure::Qr(s) if s == "hi"));
    assert!(d.is_logged());
    let d = get(&i, &request(None, true, true, true)).unwrap();
    assert!(d.is_logged());
    assert!(matches!(d, Disclosure::Copy(s) if s == "s3"));
    assert!(!Disclosure::Nothing.is_logged());
    let e = get(&i, &request(Some("x"), false, false, false)).unwrap_err();
    assert!(e.message().contains("unknown field 'x'"));
    assert!(get(&i, &request(Some("metadata"), false, false, true)).is_err());
    assert!(decryption_failed("k").message().contains("decryption failed: k"));
}

#[test]
fn secrets_are_listed_by_type() {
    let v = vec![item("a", ItemType::Note), item("b", ItemType::Totp), item("c", ItemType::Note)];
    assert_eq!(list(&v, None), vec![0, 1, 2]);
    assert_eq!(list(&v, Some(ItemType::Note)), vec![0, 2]);
    assert_eq!(list_text(&v, Some(ItemType::File)), "No secrets found.\n");
    let mut e = item("a", ItemType::Note);
    e.metadata.tags = texts(&["x", "y"]);
    e.metadata.url = some("u");
    let t = print_index_entry(&e);
    assert!(t.starts_with("Name:      a\nType:      label\n"));
    assert!(t.contains("URL:       u\n") && t.contains("Tags:      x, y\n"));
}

#[test]
fn changes_are_reported() {
    assert_eq!(added("a").message, "Secret added: a");
    assert_eq!(added("a").op, SecretOp::Create);
    assert_eq!(updated("a").message, "Secret updated: a");
    assert!(delete("a", false).unwrap_err().message().contains("delete secret 'a'"));
    assert_eq!(delete("a", true).unwrap().message, "Secret deleted: a");
    let d = rename("a", "b");
    assert_eq!((d.subject.as_str(), d.details.as_deref()), ("b", Some("from=a")));
    assert_eq!(copy("a", "b").message, "Secret copied: 'a' -> 'b'");
    assert!(matches!(mv("a", "b", false), Move::Rename { done } if done.op == SecretOp::Rename));
    match mv("a", "b", true) {
        Move::CopyThenDelete { copied, done } => {
            assert_eq!(copied.op, SecretOp::Copy);
            assert_eq!(done.details.as_deref(), Some("from=a (force)"));
        }
        other => panic!("got {other:?}"),
    }
}

#[test]
fn updates_change_one_part() {
    assert_eq!(update_source(&None, true).unwrap(), UpdateSource::Payload);
    assert_eq!(update_source(&some("notes"), false).unwrap(), UpdateSource::Notes);
    assert_eq!(update_source(&None, false).unwrap(), UpdateSource::Secret);
    assert!(update_source(&some("x"), false).is_err());
    let p = update(payload("a"), Update::Notes(text("n")));
    assert_eq!((p.secret.as_str(), p.notes.as_deref()), ("a", Some("n")));
    let p = update(p, Update::Notes(text("")));
    assert_eq!(p.notes, None);
    let p = update(p, Update::Secret(text("b")));
    assert_eq!(p.secret, "b");
    assert_eq!(update(p, Update::Payload(payload("c"))).secret, "c");
}

#[test]
fn edits_round_trip() {
    let mut p = payload("s3cret");
    p.notes = some("remember");
    p.extra = Some(json(r#"{"k":[1,2]}"#));
    let form = edit_text(&p);
    assert_eq!(form, "s3cret\nNotes: remember\nExtra: {\"k\":[1,2]}\n");
    let q = parse_edited_payload(&form).unwrap();
    assert_eq!((q.secret, q.notes, q.extra), (p.secret, p.notes, p.extra));
    assert!(parse_edited_payload("\n \n").unwrap_err().message().contains("empty"));
    let e = parse_edited_payload("\nNotes: x\n").unwrap_err();
    assert!(e.message().contains("secret value must not be empty"));
    assert!(parse_edited_payload("s\nExtra: {\n").is_err());
    assert_eq!(edit_command(&None, &some("e"), &some("v")), "e");
    assert_eq!(edit_command(&some("f"), &some("e"), &None), "f");
    assert_eq!(edit_command(&None, &None, &None), "vi");
}

#[test]
fn store_faults_are_mapped() {
    let faults = vec![
        StoreFault::NotFound(text("a")),
        StoreFault::AlreadyExists(text("a")),
        StoreFault::InvalidName(text("a")),
        StoreFault::GenerationMismatch { name: text("a"), expected: 2, got: 1 },
        StoreFault::Tampered { path: text("p"), reason: text("r") },
        StoreFault::Serde(text("x")),
        StoreFault::Entry(text("x")),
    ];
    for f in faults {
        assert!(!map_store_error(f).message().is_empty());
    }
    let e = map_store_error(StoreFault::Io(IoFault::PermissionDenied, text("x")));
    assert_eq!(e.exit_code(), 77);
}

// Finding

#[test]
fn scores_prefer_runs_and_word_starts() {
    assert_eq!(fuzzy_score("", "abc"), Some(0));
    assert_eq!(fuzzy_score("a", "a"), Some(26));
    assert_eq!(fuzzy_score("ab", "ab"), Some(27 + 16));
    assert_eq!(fuzzy_score("x", "abc"), None);
    assert!(fuzzy_score("gt", "git-token") < fuzzy_score("gi", "git-token"));
    assert_eq!(fuzzy_score("GIT", "git"), fuzzy_score("git", "GIT"));
    assert!(is_separator('-') && is_separator('_') && is_separator('/') && is_separator('.'));
    assert!(!is_separator(' ') && !is_separator('a'));
    assert_eq!(fuzzy_score("b", "a-b"), Some(26));
    assert_eq!(fuzzy_score("b", "a b"), Some(11));
}

fn names() -> Vec<IndexEntry> {
    vec![
        item("github/token", ItemType::Password),
        item("aws", ItemType::Password),
        item("git", ItemType::Note),
    ]
}

#[test]
fn searches_rank_their_hits() {
    let v = names();
    assert_eq!(fuzzy_search("git", &v, None), vec![0, 2]);
    assert_eq!(fuzzy_search("git", &v, Some(ItemType::Note)), vec![2]);
    assert_eq!(fuzzy_search("zzz", &v, None), Vec::<usize>::new());
    let many: Vec<IndexEntry> = (0..30).map(|i| item(&format!("a{i}"), ItemType::Note)).collect();
    assert_eq!(fuzzy_search("a", &many, None).len(), 10);
}

#[test]
fn regular_expressions_search_metadata() {
    let mut v = names();
    v[1].metadata.url = some("https://console");
    assert_eq!(regex_search(&v, "^GIT", None).unwrap(), vec![0, 2]);
    assert_eq!(regex_search(&v, "console", None).unwrap(), vec![1]);
    assert!(regex_search(&v, "(", None).unwrap_err().message().contains("invalid regex: "));
    assert_eq!(find_run(&v, &some("^git$"), true, None, &vec![]).unwrap(), vec![2]);
    assert!(print_all(&v, &vec![1]).contains("aws"));
}

#[test]
fn results_are_shown_by_number() {
    assert_eq!(shown(0, true, true), Shown::Nothing);
    assert_eq!(shown(1, true, true), Shown::One { json: true });
    assert_eq!(shown(2, true, true), Shown::Json);
    assert_eq!(shown(2, false, true), Shown::Select);
    assert_eq!(shown(2, false, false), Shown::All);
}

#[test]
fn selectors_follow_keys() {
    let v = names();
    let mut s = Selector::new(&v);
    assert_eq!(s.filtered, vec![0, 1, 2]);
    assert_eq!(s.press(&v, Key::Up), Step::Continue);
    assert_eq!(s.selected, 2);
    s.press(&v, Key::Down);
    assert_eq!(s.selected, 0);
    for c in ['a', 'w'] {
        s.press(&v, Key::Char { c, control: false });
    }
    assert_eq!(s.query, "aw");
    assert_eq!(s.filtered, vec![1]);
    assert_eq!(s.press(&v, Key::Enter), Step::Chosen(1));
    s.press(&v, Key::Backspace);
    assert_eq!(s.query, "a");
    assert_eq!(s.press(&v, Key::Esc), Step::Cancelled);
}

// Grep

fn grep_entry(name: &str, secret: &str, notes: Option<&str>) -> GrepEntry {
    let p = SecretPayload { secret: text(secret), notes: notes.map(text), extra: None };
    GrepEntry { name: text(name), payload: Some(p) }
}

#[test]
fn matches_have_places() {
    let v = vec![grep_entry("a", "one two one", Some("x\none")), grep_entry("b", "none", None)];
    let found = grep_run("one", false, &v).unwrap();
    let places: Vec<(&str, &str, usize, u128, u128)> = found
        .iter()
        .map(|m| (m.name.as_str(), m.field.as_str(), m.line_number, m.match_start, m.match_end))
        .collect();
    assert_eq!(places[0].0, "a");
    assert_eq!(places[0].3, 0);
    assert_eq!(places[1].3, 8);
    assert_eq!(found.iter().filter(|m| m.field == "notes").count(), 1);
    assert_eq!(found.iter().find(|m| m.field == "notes").unwrap().line_number, 2);
    assert_eq!(found.iter().find(|m| m.name == "b").unwrap().match_start, 1);
    let shown = print_matches(&found);
    assert!(shown.starts_with("a:secret:L1:C0-C3: one two one\n"));
}

#[test]
fn expressions_have_spans() {
    let v = vec![grep_entry("a", "k1 k22", None)];
    let found = grep_run("k[0-9]+", true, &v).unwrap();
    let spans: Vec<(u128, u128)> = found.iter().map(|m| (m.match_start, m.match_end)).collect();
    assert_eq!(spans, vec![(0, 2), (3, 6)]);
    assert!(grep_run("", false, &v).unwrap_err().message().contains("must not be empty"));
    assert!(grep_run("(", true, &v).unwrap_err().message().contains("invalid regex: "));
    let unreadable = vec![GrepEntry { name: text("a"), payload: None }];
    assert!(grep_run("a", false, &unreadable).unwrap().is_empty());
}

// Audit of secrets

#[test]
fn digests_are_known() {
    assert_eq!(
        sha256_hex("abc"),
        "ba7816bf8f01cfea414140de5dae2223b00361a396177a9cb410ff61f20015ad"
    );
    let q = range_query("password");
    assert_eq!(q.url, "https://api.pwnedpasswords.com/range/5BAA6");
    assert_eq!(q.suffix, "1E4C9B93F3F0682250B6CF8331B7EE68FD8");
    assert!(check_hibp("AA:1\r\n1E4C9B93F3F0682250B6CF8331B7EE68FD8:9\r\n", &q.suffix));
    assert!(!check_hibp("AA:1\n", &q.suffix));
    assert!(hibp_status_error(503).message().contains("HIBP API returned status 503"));
}

#[test]
fn weak_passwords_are_named() {
    assert!(check_strength("short").is_some());
    assert!(check_strength("").is_some());
    assert_eq!(check_strength("Str0ng!Passw0rd#2026"), None);
    assert!(!item_type_label(ItemType::Password).is_empty());
}

fn audited(name: &str, password: &str) -> Audited {
    Audited {
        name: text(name),
        item_type: ItemType::Password,
        updated_at: text("2020-01-01T00:00:00Z"),
        opened: Opened::Plain(text(password)),
        breached: Some(name == "bad"),
    }
}

#[test]
fn secrets_are_audited() {
    let v = vec![
        audited("a", "Str0ng!Passw0rd#2026"),
        audited("b", "Str0ng!Passw0rd#2026"),
        audited("bad", "123"),
    ];
    let now: jiff::Timestamp = "2026-01-01T00:00:00Z".parse().unwrap();
    let r = audit_run(&v, now.as_nanosecond(), 90, false);
    assert_eq!(r.total, 3);
    assert_eq!(r.by_type.password, 3);
    let counted = counted_types(&r.by_type);
    assert!(counted.iter().all(|t| t.count > 0));
    assert!(counted.iter().any(|t| t.label == "password" && t.count == 3));
    assert_eq!(r.duplicates, vec![texts(&["a", "b"])]);
    assert_eq!(r.breached, texts(&["bad"]));
    assert_eq!(r.weak.len(), 1);
    assert_eq!(r.old.len(), 3);
    assert!(print_text(&r).contains("bad"));
    let r = audit_run(&v, now.as_nanosecond(), 90, true);
    assert!(r.breached.is_empty());
    let groups = duplicates(&texts(&["x", "y", "z"]), &texts(&["1", "2", "1"]));
    assert_eq!(groups, vec![texts(&["x", "z"])]);
}

// Checks of the store

fn probe(state: PathState) -> PathProbe {
    PathProbe { path: text("/p"), state, chmod: Ok(()) }
}

#[test]
fn permissions_are_checked() {
    let e = check_dir_permissions(&probe(PathState::Mode(0o40700)), 0o700, "home", false);
    assert_eq!(e.line(), "  [OK] home permissions 0700");
    let e = check_dir_permissions(&probe(PathState::Mode(0o755)), 0o700, "home", false);
    assert_eq!(e.line(), "  [FAIL] home has mode 0755 (expected 0700): /p");
    let e = check_dir_permissions(&probe(PathState::Mode(0o755)), 0o700, "home", true);
    assert_eq!(e.line(), "  [FIXED] home has mode 0755 (expected 0700): /p — fixed");
    let e = check_dir_permissions(&probe(PathState::Missing), 0o700, "home", false);
    assert_eq!(e.line(), "  [WARN] home does not exist: /p");
    let e = check_file_permissions(&probe(PathState::Unreadable(text("io"))), 0o600, "f", false);
    assert_eq!(e.line(), "  [FAIL] cannot stat f: io");
    assert!(needs_chmod(&PathState::Mode(0o644), 0o600, true));
    assert!(!needs_chmod(&PathState::Mode(0o644), 0o600, false));
    assert_eq!(Status::Warn.tag(), "[WARN]");
}

#[test]
fn file_names_stand_for_secrets() {
    assert_eq!(filename_to_name("a%2Fb%25c"), "a/b%c");
    assert_eq!(filename_to_name("%252F"), "%2F");
    assert!(is_age_file("a.age") && !is_age_file(".age") && !is_age_file("a.txt"));
    assert_eq!(collect_age_files(&texts(&["b.age", "x", "a.age"])), texts(&["a.age", "b.age"]));
    assert_eq!(file_secret_names(&texts(&["a%2Fb.age", "x"])), texts(&["a/b"]));
    assert!(orphaned("a.age", &texts(&["b"])) && !orphaned("a.age", &texts(&["a"])));
}

#[test]
fn indexes_are_read() {
    assert_eq!(split_index("a\n\n  b \n"), texts(&["a", "b"]));
    let (entries, bad) = parse_index(&vec![some("b"), None, some("a")]);
    let at: Vec<(&str, usize)> = entries.iter().map(|e| (e.name.as_str(), e.line)).collect();
    assert_eq!(at, vec![("a", 2), ("b", 0)]);
    assert_eq!(bad, 1);
    assert_eq!(index_names(&vec![some("b"), some("a")]), texts(&["a", "b"]));
    assert_eq!(cleaned_index(&entries, &texts(&["b.age"])), vec![0]);
}

fn healthy() -> FsckProbe {
    FsckProbe {
        store_root: text("/s"),
        home: probe(PathState::Mode(0o700)),
        store: probe(PathState::Mode(0o700)),
        secrets: probe(PathState::Mode(0o700)),
        age_files: vec![AgeFile {
            file: text("a.age"),
            probe: probe(PathState::Mode(0o600)),
            removed: Ok(()),
        }],
        index: vec![some("a")],
        index_file: Some(probe(PathState::Mode(0o600))),
        recipients: RecipientsState::Loaded(1),
        identity: IdentityState::Valid,
        store_open: Ok(()),
        decrypts: vec![DecryptState::Decrypted],
        rewrite: Ok(()),
    }
}

#[test]
fn healthy_stores_pass() {
    let r = fsck_run(false, true, &healthy());
    assert!(r.result.is_ok());
    assert!(r.entries.iter().all(|e| !e.line().contains("[FAIL]")));
}

#[test]
fn faults_are_found() {
    let mut p = healthy();
    p.identity = IdentityState::Missing;
    assert!(fsck_run(false, false, &p).result.is_ok());
    p.identity = IdentityState::Bad(text("x"));
    assert!(fsck_run(false, false, &p).result.is_err());
    let mut p = healthy();
    p.recipients = RecipientsState::Bad(text("x"));
    assert!(fsck_run(false, false, &p).result.is_err());
    let mut p = healthy();
    p.decrypts = vec![DecryptState::Failed(text("key"))];
    assert!(fsck_run(false, true, &p).result.is_err());
    assert!(fsck_run(false, false, &p).result.is_ok());
    let mut p = healthy();
    p.store_open = Err(text("locked"));
    let e = fsck_run(false, true, &p).result.unwrap_err();
    assert!(e.message().contains("failed to open store: locked"));
    let mut p = healthy();
    p.index = vec![];
    p.decrypts = vec![];
    let r = fsck_run(true, false, &p);
    let lines: Vec<String> = r.entries.iter().map(|e| e.line()).collect();
    assert!(lines.contains(&text("  [WARN] orphan .age file: /p (name: 'a')")), "{lines:?}");
    assert!(lines.contains(&text("  [FIXED] removed orphan file: /p")), "{lines:?}");
}

// Doctor

fn census() -> GenerationCensusView {
    GenerationCensusView {
        sealed: 0,
        lag: 0,
        stale: 0,
        missing: 0,
        tombstones: 0,
        fully_protected: 0,
        wallet_keys: 0,
    }
}

fn checkup() -> DoctorProbe {
    DoctorProbe {
        home_path: text("/h"),
        home: Place::Present(Some(0o700)),
        store_path: text("/h/store"),
        store: Place::Present(Some(0o700)),
        identity_path: text("/h/keys/id"),
        identity: IdentityProbe::Valid,
        recipients_path: text("/h/.age-recipients"),
        recipients: RecipientsState::Loaded(2),
        index_path: text("/h/store/index.jsonl"),
        index: IndexProbe::Lines(vec![some("a")]),
        secrets: vec![SecretFile { file: text("a.age"), mode: Some(0o600) }],
        config: Some(Ok(())),
        repository: Some(true),
        git_template_healed: false,
        journal_forwarded: 0,
        journal_rolled_back: 0,
        census: census(),
        repair: None,
        samples: vec![true],
        file_names: vec![],
        hardening: hardening_status(true, true),
    }
}

#[test]
fn healthy_installations_pass() {
    let r = collect_report(&checkup());
    assert_eq!(r.failures, 0);
    assert!(r.identity_ok && r.recipients_ok && r.recipients_open);
    assert_eq!((r.sample_decrypt_ok, r.sample_decrypt_fail), (1, 0));
    assert!(run_ext(&r).is_ok());
    assert!(r.notes.contains(&text("2 recipient(s)")));
    assert!(print_human(&r, true).contains("onecipher doctor"));
}

#[test]
fn sick_installations_fail() {
    let mut p = checkup();
    p.home = Place::Missing;
    p.identity = IdentityProbe::Bad(text("x"));
    p.secrets = vec![SecretFile { file: text("b.age"), mode: Some(0o644) }];
    p.file_names = texts(&["x.tmp", "y"]);
    let r = collect_report(&p);
    assert!(r.failures >= 2 && r.warnings >= 2);
    assert_eq!(r.orphan_tmp, 1);
    assert!(!r.identity_ok);
    assert!(r.notes.contains(&text("/h does not exist")));
    assert!(r.notes.contains(&text("age identity parse error: x")));
    let e = run_ext(&r).unwrap_err();
    assert!(e.message().contains("diagnostic check(s) failed"));
}

#[test]
fn templates_heal_once() {
    let t = ensure_git_template("*.log").unwrap();
    assert_eq!(t, "*.log\n*.tmp\n.staging-*/\ngenerations.sealed\n");
    assert_eq!(ensure_git_template(&t), None);
    assert_eq!(count_orphan_tmp(&texts(&["a.tmp", "b"])), 1);
    assert_eq!(load_tombstones("a\n\nb\n"), texts(&["a", "b"]));
    assert_eq!(count_difference(&texts(&["a", "a", "b"]), &texts(&["b"])), 1);
}

#[test]
fn repairs_never_lower() {
    let mut floor = vec![Generation { name: text("a"), generation: 7 }];
    let scanned = vec![
        Scanned { name: text("a"), readable: true },
        Scanned { name: text("b"), readable: true },
        Scanned { name: text("c"), readable: false },
    ];
    repair_floor(&mut floor, &scanned);
    assert_eq!(floor.iter().find(|g| g.name == "a").unwrap().generation, 7);
    assert!(floor.iter().any(|g| g.name == "b"));
    assert!(floor.iter().all(|g| g.name != "c"));
    let mut p = checkup();
    p.repair = Some(RepairProbe::Scanned(scanned));
    assert_eq!(collect_report(&p).repair_skipped, texts(&["c"]));
}
