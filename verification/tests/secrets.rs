use onecipher::commands::age_cmd::{
    init, recipient_add, recipient_list, recipient_remove, reencrypted, require_recipients,
};
use onecipher::commands::agent_secret::{
    agent_secret_get, agent_secret_list, agent_totp_generate, audit_payload,
    check_read_permission, glob_match, list_lines, read_api_token, Access, SecretPermissions,
    Summary,
};
use onecipher::commands::backup;
use onecipher::commands::clipboard::{copy_and_clear, may_clear, read_value_from_stdin};
use onecipher::commands::editor::{
    edit_secret, editor_command, run_editor, staging_dir, unique_suffix, zero_chunk,
};
use onecipher::commands::env_cmd::{
    exit_with_status, run, to_env_key, Listed, Lookup, Named, Prompted, Secret,
};
use onecipher::commands::render::{Field, Report};
use onecipher::environment::Environment;

fn text(s: &str) -> String {
    s.to_string()
}

fn texts(v: &[&str]) -> Vec<String> {
    v.iter().map(|s| s.to_string()).collect()
}

// Patterns

#[test]
fn test_glob_exact_match() {
    assert!(glob_match("github", "github"));
    assert!(!glob_match("github", "gitlab"));
}

#[test]
fn test_glob_trailing_star() {
    assert!(glob_match("github/*", "github/token"));
    assert!(glob_match("github/*", "github/"));
    assert!(!glob_match("github/*", "gitlab/token"));
}

#[test]
fn test_glob_leading_star() {
    assert!(glob_match("*/token", "github/token"));
    assert!(glob_match("*/token", "gitlab/token"));
    assert!(!glob_match("*/token", "github/password"));
}

#[test]
fn test_glob_star_only() {
    assert!(glob_match("*", "anything"));
    assert!(glob_match("*", ""));
}

#[test]
fn test_glob_multiple_stars() {
    assert!(glob_match("*/*", "github/token"));
    assert!(glob_match("totp/*", "totp/github"));
    assert!(!glob_match("totp/*", "password/github"));
}

#[test]
fn test_glob_no_match() {
    assert!(!glob_match("github", "github/token"));
    assert!(!glob_match("github", ""));
}

#[test]
fn globs_backtrack() {
    assert!(glob_match("a*b*c", "a-b-b-c"));
    assert!(!glob_match("a*b*c", "a-c-b"));
    assert!(glob_match("**", ""));
    assert!(!glob_match("", "x"));
    assert!(glob_match("é*", "éa"));
}

fn perms(patterns: &[&str], allow_totp: bool) -> SecretPermissions {
    SecretPermissions { read_patterns: texts(patterns), allow_totp }
}

#[test]
fn test_check_read_permission_allowed() {
    let perms = perms(&["github/*", "totp/*"], false);
    assert!(check_read_permission(&perms, "github/token").is_ok());
    assert!(check_read_permission(&perms, "totp/aws").is_ok());
}

#[test]
fn test_check_read_permission_denied() {
    let perms = perms(&["github/*"], false);
    assert!(check_read_permission(&perms, "aws/key").is_err());
}

#[test]
fn test_check_read_permission_empty_patterns_denies_all() {
    let perms = perms(&[], false);
    assert!(check_read_permission(&perms, "anything").is_err());
}

#[test]
fn agent_reads_are_shown_and_logged() {
    assert_eq!(agent_secret_get("a/b", "password", "s3cret", false), "s3cret");
    let shown = agent_secret_get("a/b", "password", "s3cret", true);
    let doc: serde_json::Value = serde_json::from_str(&shown).unwrap();
    assert_eq!(doc["name"], "a/b");
    assert_eq!(doc["item_type"], "password");
    assert_eq!(doc["secret"], "s3cret");
    assert!(shown.starts_with("{\n  \""));
    let read = audit_payload(&Access::Read {
        name: "a/b".to_string(),
        item_type: "password".to_string(),
    });
    assert_eq!(read["name"], "a/b");
    assert_eq!(read["item_type"], "password");
    let list = audit_payload(&Access::List { count: 3 });
    assert_eq!(list["action"], "list");
    assert_eq!(list["count"], 3);
    let totp = audit_payload(&Access::Totp { name: "x".to_string() });
    assert_eq!(totp["action"], "totp_generate");
    assert_eq!(totp["name"], "x");
}

#[test]
fn listing_needs_a_pattern() {
    assert!(agent_secret_list(&perms(&["x"], false)).is_ok());
    let e = agent_secret_list(&perms(&[], true)).unwrap_err();
    assert!(e.message().contains("has no read patterns"));
}

#[test]
fn totp_needs_its_own_permission() {
    assert!(agent_totp_generate(&perms(&["totp/*"], true), "totp/a").is_ok());
    let e = agent_totp_generate(&perms(&["totp/*"], false), "totp/a").unwrap_err();
    assert!(e.message().contains("TOTP generation is not allowed"));
    assert!(agent_totp_generate(&perms(&["x"], true), "totp/a").is_err());
}

#[test]
fn tokens_come_from_the_environment() {
    let mut env = Environment::new();
    assert!(read_api_token(&env).unwrap_err().message().contains("no API token"));
    env.set(text("OC_PASSPHRASE"), text("oc_key_1"));
    assert_eq!(read_api_token(&env).unwrap(), "oc_key_1");
}

#[test]
fn summaries_are_listed() {
    let v = vec![Summary { name: text("a"), item_type: text("note"), updated_at: text("t") }];
    let lines = list_lines(&v);
    assert_eq!(lines.len(), 1);
    assert!(lines[0].contains("a") && lines[0].contains("note"));
}

// Recipients

#[test]
fn recipients_are_added_once() {
    let list = texts(&["age1a"]);
    assert_eq!(recipient_add(&list, "age1a"), None);
    let longer = recipient_add(&list, "age1b").unwrap();
    assert_eq!(longer, texts(&["age1a", "age1b"]));
    assert_eq!(recipient_add(&longer, "age1b"), None);
}

#[test]
fn recipients_are_removed() {
    let list = texts(&["age1a", "age1b"]);
    assert_eq!(recipient_remove(&list, "age1a").unwrap(), texts(&["age1b"]));
    let e = recipient_remove(&list, "age1c").unwrap_err();
    assert!(e.message().contains("recipient not found: 'age1c'"));
}

#[test]
fn recipients_are_listed() {
    assert_eq!(recipient_list(&vec![]), texts(&["No recipients found."]));
    assert_eq!(recipient_list(&texts(&["x", "y"])), texts(&["1: x", "2: y"]));
    assert!(require_recipients(&texts(&["x"])).is_ok());
    assert!(require_recipients(&vec![]).is_err());
    assert_eq!(reencrypted(3, 2), "Re-encrypted 3 secret(s) with 2 recipient(s).");
}

#[test]
fn identities_are_not_overwritten() {
    assert!(init(false, "/k").is_ok());
    assert!(init(true, "/k").unwrap_err().message().contains("already exists at /k"));
}

#[test]
fn backups_need_recipients() {
    assert!(backup::check_recipients(&texts(&["age1"])).is_ok());
    assert!(backup::check_recipients(&vec![]).is_err());
    assert_eq!(
        backup::export(2, "/o", 1),
        "backup exported 2 wallet(s) to /o (age, 1 recipient(s))"
    );
    assert_eq!(
        backup::import(2, "/i", 17),
        "backup imported 2 wallet(s) from /i (exported at unix 17)"
    );
    assert!(matches!(backup::read_identity(&None), backup::IdentitySource::Ask));
    let given = backup::read_identity(&Some(text(" KEY\n")));
    assert!(matches!(given, backup::IdentitySource::Flag(s) if s == "KEY"));
    assert!(backup::identity_error(true, "x").message().contains("invalid --identity: x"));
    assert!(backup::identity_error(false, "x").message().contains("invalid backup identity: x"));
}

// Clipboard

#[test]
fn detached_flag_keeps_compare_before_clear_property() {
    assert!(may_clear(&Some(text("secret")), "secret"));
    assert!(!may_clear(&Some(text("something newer")), "secret"));
    assert!(!may_clear(&None, "secret"));
}

#[test]
fn clearing_can_be_disabled() {
    let p = copy_and_clear(0);
    assert_eq!(p.message, "Copied to clipboard. Auto-clear disabled.");
    assert_eq!(p.clear_after, None);
    let p = copy_and_clear(45);
    assert_eq!(p.message, "Copied to clipboard. Will clear in 45 seconds.");
    assert_eq!(p.clear_after, Some(45));
}

#[test]
fn one_newline_is_stripped() {
    assert_eq!(read_value_from_stdin("v\n").unwrap(), "v");
    assert_eq!(read_value_from_stdin("v\n\n").unwrap(), "v\n");
    assert!(read_value_from_stdin("\n").unwrap_err().message().contains("no value on stdin"));
    assert!(read_value_from_stdin("a\0b").unwrap_err().message().contains("binary input"));
}

// Editor

#[test]
fn editors_are_chosen() {
    assert_eq!(editor_command(&Some(text("v")), &Some(text("e"))), "v");
    assert_eq!(editor_command(&None, &Some(text("e"))), "e");
    assert_eq!(editor_command(&None, &None), "vi");
}

#[test]
fn editors_may_fail() {
    assert!(run_editor("vi", true, "exit status: 0").is_ok());
    let e = run_editor("vi", false, "exit status: 1").unwrap_err();
    assert!(e.message().contains("editor 'vi' exited with exit status: 1"));
}

#[test]
fn staged_files_are_zeroed_in_chunks() {
    assert_eq!(edit_secret("a\nb\r\n\n"), "a\nb");
    assert_eq!(unique_suffix(None), 0);
    assert_eq!(unique_suffix(Some((1u128 << 64) + 7)), 7);
    assert_eq!(staging_dir(12, 34), "onecipher-edit-12-34");
    let mut left: u64 = 10_000;
    let mut written: u64 = 0;
    while left > 0 {
        let n = zero_chunk(left);
        assert!(0 < n && n <= left);
        left -= n;
        written += n;
    }
    assert_eq!(written, 10_000);
}

// Environment of a command

#[test]
fn set_pair_validation() {
    assert!(run(&vec![], &texts(&["BAD"]), &vec![], false, false, &vec![]).is_err());
    let r = run(&vec![], &texts(&["K=V\0"]), &vec![], false, false, &texts(&["true"]));
    assert!(r.is_err());
}

#[test]
fn to_env_key_keeps_full_path() {
    assert_eq!(to_env_key("a/b/c", false), "A_B_C");
    assert_eq!(to_env_key("a/b/c", true), "a_b_c");
}

#[test]
fn children_decide_the_status() {
    assert_eq!(exit_with_status(Some(0)), 0);
    assert_eq!(exit_with_status(Some(7)), 7);
    assert_eq!(exit_with_status(None), 1);
}

fn found(name: &str, value: &str) -> Named {
    Named { name: text(name), lookup: Lookup::Found(Secret::Value(text(value))) }
}

#[test]
fn commands_get_their_secrets() {
    let p = run(
        &vec![found("db/pass", "s3")],
        &texts(&["MODE=x=y"]),
        &vec![],
        false,
        true,
        &texts(&["prog", "-v"]),
    )
    .unwrap();
    assert_eq!(p.program, "prog");
    assert_eq!(p.args, texts(&["-v"]));
    assert!(p.in_place);
    let pairs: Vec<(String, String)> = p.pairs.into_iter().map(|q| (q.key, q.value)).collect();
    assert!(pairs.contains(&(text("DB_PASS"), text("s3"))));
    assert!(pairs.contains(&(text("MODE"), text("x=y"))));
}

#[test]
fn folders_give_all_their_secrets() {
    let listed = vec![
        Listed { name: text("db/a"), secret: Secret::Value(text("1")) },
        Listed { name: text("db/b"), secret: Secret::Value(text("2")) },
    ];
    let n = Named { name: text("db"), lookup: Lookup::NotFound(Ok(listed)) };
    let p = run(&vec![n], &vec![], &vec![], true, false, &texts(&["p"])).unwrap();
    assert_eq!(p.pairs.len(), 2);
    assert_eq!(p.pairs[0].value, "1");
}

#[test]
fn commands_refuse_bad_secrets() {
    let bad = Named { name: text("x"), lookup: Lookup::Found(Secret::Undecryptable(text("k"))) };
    assert!(run(&vec![bad], &vec![], &vec![], false, false, &texts(&["p"])).is_err());
    let bad = Named { name: text("x"), lookup: Lookup::Failed(text("io")) };
    assert!(run(&vec![bad], &vec![], &vec![], false, false, &texts(&["p"])).is_err());
    let twice = vec![found("a/b", "1"), found("a_b", "2")];
    assert!(run(&twice, &vec![], &vec![], false, false, &texts(&["p"])).is_err());
    assert!(run(&vec![found("a", "1")], &vec![], &vec![], false, false, &vec![]).is_err());
    let empty = vec![Prompted { key: text("K"), line: text("\n") }];
    assert!(run(&vec![], &vec![], &empty, false, false, &texts(&["p"])).is_err());
    let typed = vec![Prompted { key: text("K"), line: text("v\r\n") }];
    let p = run(&vec![], &vec![], &typed, false, false, &texts(&["p"])).unwrap();
    assert_eq!(p.pairs[0].value, "v");
}

// Reports

#[test]
fn secrets_hidden_by_default_and_shown_on_reveal() {
    let r = Report::new(text("demo"))
        .then(Field::public(text("user"), text("alice")))
        .then(Field::secret(text("password"), text("hunter2")));
    assert!(r.render_human(false).contains("<hidden>"));
    assert!(!r.render_human(false).contains("hunter2"));
    assert!(r.render_human(true).contains("hunter2"));
}

#[test]
fn reveal_then_chaining_renders() {
    let out = Report::new(text("t"))
        .revealing(false)
        .then(Field::secret(text("k"), text("v")))
        .render();
    assert!(out.contains("<hidden>"));
}

#[test]
fn human_and_reveal_chain_share_single_source() {
    let r = Report::new(text("t")).then(Field::public(text("a"), text("b")));
    assert!(r.render_human(false).contains("a: b"));
    let out = Report::new(text("t"))
        .revealing(false)
        .then(Field::secret(text("k"), text("v")))
        .render();
    assert!(out.contains("<hidden>"));
}
