use onecipher::audit::{
    account_details, log_audit, log_audit_strong, log_broadcast, log_secret_event,
    log_wallet_created, log_wallet_deleted, log_wallet_renamed, Account, AuditChannel, AuditEntry,
    AuditOp,
};
use onecipher::commands::audit::{
    amount_text, audit_log_path, filter_record, list, list_line, open_error, parse_duration,
    parse_filters, print_entry, read_record, total_seconds, try_parse_duration, Duration, Filters,
    Listed,
};
use onecipher::error::IoFault;

fn text(s: &str) -> String {
    s.to_string()
}

fn some(s: &str) -> Option<String> {
    Some(s.to_string())
}

fn entry(wallet_id: &str, operation: &str) -> AuditEntry {
    AuditEntry {
        timestamp: text("2026-03-22T10:00:00Z"),
        wallet_id: text(wallet_id),
        operation: text(operation),
        chain_id: None,
        address: None,
        details: None,
        secret_name: None,
    }
}

fn json(s: &str) -> serde_json::Value {
    serde_json::from_str(s).unwrap()
}

fn op(name: &str, track: AuditChannel) -> AuditOp {
    AuditOp { name: text(name), track }
}

#[test]
fn char_audit_entry_written_to_file() {
    let mut e = entry("test-wallet-id", "wallet.create");
    e.details = some("test details");
    let a = log_audit(&e, "/vault");
    assert_eq!(a.dir, "/vault/logs");
    assert_eq!(a.path, "/vault/logs/audit.jsonl");
    let parsed = json(a.line.trim());
    assert_eq!(parsed["wallet_id"], "test-wallet-id");
    assert_eq!(parsed["operation"], "wallet.create");
    assert_eq!(parsed["details"], "test details");
    assert_eq!(parsed["timestamp"], "2026-03-22T10:00:00Z");
}

#[test]
fn char_audit_multiple_entries_appended() {
    let mut contents = String::new();
    for i in 0..3 {
        let mut e = entry(&format!("wallet-{i}"), "wallet.create");
        e.timestamp = format!("2026-03-22T10:0{}:00Z", i);
        contents.push_str(&log_audit(&e, "/vault").line);
    }
    let lines: Vec<&str> = contents.lines().collect();
    assert_eq!(lines.len(), 3, "should have 3 audit entries");
    for (i, line) in lines.iter().enumerate() {
        let parsed = json(line);
        assert_eq!(parsed["wallet_id"], format!("wallet-{i}"));
    }
}

#[test]
fn char_audit_broadcast_entry() {
    let e = log_broadcast("2026-03-22T10:00:00Z", "bc-wallet", "eip155:8453", "0xabc123");
    let parsed = json(&e.entry.to_json());
    assert_eq!(parsed["operation"], "wallet.broadcast");
    assert_eq!(parsed["chain_id"], "eip155:8453");
    assert!(parsed["details"].as_str().unwrap().contains("tx_hash=0xabc123"));
    assert_eq!(e.channel, AuditChannel::Strong);
}

#[test]
fn char_audit_entry_skips_none_fields() {
    let parsed = json(log_audit(&entry("w1", "wallet.create"), "/vault").line.trim());
    assert!(parsed.get("chain_id").is_none());
    assert!(parsed.get("address").is_none());
    assert!(parsed.get("details").is_none());
    assert!(parsed.get("secret_name").is_none());
}

#[test]
fn char_audit_two_tracks_split_light_and_strong() {
    let read = log_audit(&entry("w1", "secret.read"), "/vault");
    let sent = log_broadcast("2026-03-22T10:00:00Z", "w1", "eip155:8453", "0xabc");
    let sent = log_audit_strong(&sent.entry, "/vault");
    assert_eq!(read.path, "/vault/logs/audit.jsonl");
    assert_eq!(sent.path, "/vault/logs/audit-strong.jsonl");
    assert!(read.line.contains("secret.read"), "light channel must hold reads");
    assert!(!read.line.contains("wallet.broadcast"), "light must not hold signing");
    assert!(sent.line.contains("wallet.broadcast"), "strong channel must hold signing");
    assert!(!sent.line.contains("secret.read"), "strong must not hold reads");
}

#[test]
fn unified_secret_event_uses_dotted_op_and_light_track() {
    let t = "2026-03-22T10:00:00Z";
    let a = log_secret_event(t, &op("totp.generate", AuditChannel::Light), "github-2fa", &None);
    let b = log_secret_event(t, &op("secret.create", AuditChannel::Light), "notes/todo", &None);
    assert_eq!(a.channel.file_name(), "audit.jsonl");
    assert_eq!(b.channel.file_name(), "audit.jsonl");
    let light = a.entry.to_json() + &b.entry.to_json();
    assert!(light.contains("totp.generate"), "got: {light}");
    assert!(light.contains("secret.create"), "got: {light}");
    assert!(light.contains("github-2fa"), "got: {light}");
    assert_eq!(a.entry.secret_name.as_deref(), Some("github-2fa"));
}

#[test]
fn entries_are_quoted() {
    let mut e = entry("w\"1\"", "x");
    e.details = some("line\nbreak");
    let a = log_audit(&e, "/vault");
    assert_eq!(a.line.matches('\n').count(), 1);
    assert_eq!(json(a.line.trim())["wallet_id"], "w\"1\"");
    assert_eq!(json(a.line.trim())["details"], "line\nbreak");
}

#[test]
fn wallet_events_carry_details() {
    let accounts = vec![
        Account { chain_id: text("eip155:1"), address: text("0xa") },
        Account { chain_id: text("solana:x"), address: text("B") },
    ];
    let details = account_details(&accounts);
    assert!(details.contains("eip155:1") && details.contains(", ") && details.contains("B"));
    let light = op("wallet.create", AuditChannel::Light);
    let e = log_wallet_created("t", "w", &accounts, &light);
    assert_eq!(e.entry.details.unwrap(), details);
    let e = log_wallet_deleted("t", "w", "main", &light);
    assert_eq!(e.entry.details.unwrap(), "name=main");
    let e = log_wallet_renamed("t", "w", "a", "b", &light);
    assert_eq!(e.entry.details.unwrap(), "a -> b");
    assert_eq!(e.entry.wallet_id, "w");
}

// Reading the log

fn days(d: i64, h: i64, m: i64, s: i64) -> (i64, i64, i64, i64) {
    (d, h, m, s)
}

fn fields(d: Duration) -> (i64, i64, i64, i64) {
    (d.days, d.hours, d.minutes, d.seconds)
}

#[test]
fn parse_duration_supports_all_units() {
    assert_eq!(fields(parse_duration("24h").unwrap()), days(0, 24, 0, 0));
    assert_eq!(fields(parse_duration("7d").unwrap()), days(7, 0, 0, 0));
    assert_eq!(fields(parse_duration("15m").unwrap()), days(0, 0, 15, 0));
    assert_eq!(fields(parse_duration("30s").unwrap()), days(0, 0, 0, 30));
}

#[test]
fn parse_duration_supports_compound() {
    assert_eq!(fields(parse_duration("1h30m").unwrap()), days(0, 1, 30, 0));
    assert_eq!(fields(parse_duration("2d12h").unwrap()), days(2, 12, 0, 0));
}

#[test]
fn parse_duration_rejects_garbage() {
    assert!(parse_duration("").is_err());
    assert!(parse_duration("abc").is_err());
    assert!(parse_duration("5").is_err());
    assert!(parse_duration("5x").is_err());
    assert!(parse_duration("0h").is_err());
}

#[test]
fn durations_out_of_range_are_told_apart() {
    assert!(try_parse_duration("99999999999999999999h").unwrap().is_err());
    assert!(try_parse_duration("9223372036854775807d").is_none());
    assert_eq!(total_seconds(&parse_duration("1d1h1m1s").unwrap()), 90061);
}

fn sample() -> serde_json::Value {
    json(
        r#"{"device_id":"agent-01","seq":42,"timestamp":"2026-07-18T12:00:00Z",
            "event_type":"pay_x402","session_key_id":"sk-1",
            "payload":{"status":"allowed","amount_usd":1.50},"prev_hash":"","device_sig":""}"#,
    )
}

#[test]
fn print_entry_includes_all_seven_fields() {
    let s = print_entry(&read_record(&sample()));
    assert!(s.contains("device_id=agent-01"), "got: {s}");
    assert!(s.contains("seq=42"), "got: {s}");
    assert!(s.contains("timestamp=2026-07-18T12:00:00Z"), "got: {s}");
    assert!(s.contains("event_type=pay_x402"), "got: {s}");
    assert!(s.contains("session_key_id=sk-1"), "got: {s}");
    assert!(s.contains("status=ALLOWED"), "got: {s}");
    assert!(s.contains("amount_usd=1.50"), "got: {s}");
    assert!(!s.contains("deny_reason"), "got: {s}");
}

#[test]
fn print_entry_denied_includes_deny_reason() {
    let v = json(
        r#"{"device_id":"agent-02","seq":7,"timestamp":"2026-07-18T12:00:00Z",
            "event_type":"pay_x402","session_key_id":null,
            "payload":{"status":"denied","amount_usd":9.99,"deny_reason":"RATE_LIMIT_MINUTE"},
            "prev_hash":"","device_sig":""}"#,
    );
    let s = print_entry(&read_record(&v));
    assert!(s.contains("status=DENIED"), "got: {s}");
    assert!(s.contains("deny_reason=RATE_LIMIT_MINUTE"), "got: {s}");
    assert!(s.contains("session_key_id=-"), "got: {s}");
}

#[test]
fn amounts_have_two_decimals() {
    assert_eq!(amount_text(&json("1.5")), "1.50");
    assert_eq!(amount_text(&json("7")), "7.00");
    assert_eq!(amount_text(&json("2.345678")), "2.35");
    assert_eq!(amount_text(&json("\"free\"")), "\"free\"");
    assert_eq!(amount_text(&json("[1, 2]")), "[1,2]");
    let s = print_entry(&read_record(&json(r#"{"payload":{"amount_usd":{"a":1}}}"#)));
    assert!(s.contains("amount_usd={\"a\":1}"), "got: {s}");
    let s = print_entry(&read_record(&json(r#"{"amount_usd":3,"payload":[4]}"#)));
    assert!(s.contains("amount_usd=-"), "got: {s}");
}

fn filters(agent: Option<&str>, since: Option<&str>, status: Option<&str>, now: &str) -> Filters {
    let now: jiff::Timestamp = now.parse().unwrap();
    parse_filters(
        &since.map(text),
        &agent.map(text),
        &status.map(text),
        now.as_nanosecond(),
    )
    .unwrap()
    .unwrap()
}

#[test]
fn logs_are_filtered() {
    let line = sample().to_string();
    let all = filters(None, None, None, "2026-07-18T13:00:00Z");
    assert!(matches!(list_line(&line, &all), Listed::Entry(s) if s.contains("seq=42")));
    assert!(matches!(list_line("  ", &all), Listed::Skip));
    assert!(matches!(list_line("{", &all), Listed::Diagnostic(_)));
    let mine = filters(Some("agent-01"), None, None, "2026-07-18T13:00:00Z");
    assert!(matches!(list_line(&line, &mine), Listed::Entry(_)));
    let other = filters(Some("agent-02"), None, None, "2026-07-18T13:00:00Z");
    assert!(matches!(list_line(&line, &other), Listed::Skip));
    let recent = filters(None, Some("2h"), None, "2026-07-18T13:00:00Z");
    assert!(matches!(list_line(&line, &recent), Listed::Entry(_)));
    let later = filters(None, Some("30m"), None, "2026-07-18T13:00:00Z");
    assert!(matches!(list_line(&line, &later), Listed::Skip));
    let denied = filters(None, None, Some("denied"), "2026-07-18T13:00:00Z");
    assert!(matches!(list_line(&line, &denied), Listed::Skip));
    let allowed = filters(None, None, Some("ALLOWED"), "2026-07-18T13:00:00Z");
    assert!(matches!(list_line(&line, &allowed), Listed::Entry(_)));
    assert_eq!(list(&vec![line.clone(), text(""), line], &all).len(), 3);
}

#[test]
fn bad_timestamps_are_reported() {
    let f = filters(None, Some("1h"), None, "2026-07-18T13:00:00Z");
    let r = read_record(&sample());
    let bad = filter_record(&r, &Err(text("no time")), &f);
    assert!(!matches!(bad, Listed::Entry(_)));
}

#[test]
fn bad_filters_are_refused() {
    assert!(parse_filters(&some("soon"), &None, &None, 0).unwrap().is_err());
    assert!(parse_filters(&some("9223372036854775807d"), &None, &None, 0).is_none());
}

#[test]
fn missing_logs_are_empty() {
    assert!(open_error(IoFault::NotFound, "x").is_ok());
    assert_eq!(open_error(IoFault::PermissionDenied, "x").unwrap_err().exit_code(), 77);
    assert_eq!(audit_log_path(&some("/p"), "/d"), "/p");
    assert_eq!(audit_log_path(&some(""), "/d"), "/d");
    assert_eq!(audit_log_path(&None, "/d"), "/d");
}
