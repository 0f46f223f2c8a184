use onecipher::commands::wc::{connect_command, pair_command};
use onecipher::daemon::control_socket::{parse_command, reply, Command, Outcome};
use onecipher::daemon::{
    after_grace, bind_error, binding_wallet, drain_interval, drain_line, engine_error,
    graceful_stop, isolation_warning, policy_line, relay_url, rpc_listen_line, sandbox_line,
    shutdown, signal_exit_status, telemetry_level, telemetry_line, token_error, wallet_rpc_enabled,
    wallet_rpc_listen_line, watched_servers, Event, PolicyRead, Telemetry, TelemetryLevel,
};

fn text(s: &str) -> String {
    s.to_string()
}

fn some(s: &str) -> Option<String> {
    Some(s.to_string())
}

#[test]
fn signal_exit_status_uses_128_plus_signal() {
    assert_eq!(signal_exit_status(1), 129);
    assert_eq!(signal_exit_status(2), 130);
    assert_eq!(signal_exit_status(3), 131);
    assert_eq!(signal_exit_status(15), 143);
}

#[test]
fn signal_exit_status_is_total_for_out_of_range_input() {
    assert_eq!(signal_exit_status(65), 128 + 64);
    assert_eq!(signal_exit_status(u32::MAX), 128 + 64);
    assert_eq!(signal_exit_status(0), 128);
    assert_eq!(signal_exit_status(64), 192);
}

#[test]
fn graceful_stop_sets_both_cancellation_flags() {
    let mut ka = false;
    let mut wc = false;
    graceful_stop(&mut ka, &mut wc);
    assert!(ka, "ka_stop must be set");
    assert!(wc, "wc_cancel must be set");
}

#[test]
fn control_lines_are_parsed() {
    assert!(matches!(parse_command("CONNECT wc:abc@2\n"), Command::Connect(u) if u == "wc:abc@2"));
    assert!(matches!(parse_command("PAIR\n"), Command::Pair(None)));
    assert!(matches!(parse_command("PAIR 300\n"), Command::Pair(Some(300))));
    assert!(matches!(parse_command("PAIR soon\n"), Command::Pair(None)));
    assert!(matches!(parse_command("PAIRS\n"), Command::Unknown));
    assert!(matches!(parse_command("connect x\n"), Command::Unknown));
    assert!(matches!(parse_command("CONNECT \n"), Command::Unknown));
}

#[test]
fn commands_of_the_client_are_understood() {
    assert!(matches!(parse_command(&connect_command("wc:t@2?x")), Command::Connect(u) if u == "wc:t@2?x"));
    assert!(matches!(parse_command(&pair_command(Some(u64::MAX))), Command::Pair(Some(u64::MAX))));
    assert!(matches!(parse_command(&pair_command(Some(0))), Command::Pair(Some(0))));
    assert!(matches!(parse_command(&pair_command(None)), Command::Pair(None)));
}

#[test]
fn control_answers_are_lines() {
    assert_eq!(reply(&Outcome::Loaded), "OK pairing loaded\n");
    assert_eq!(reply(&Outcome::Paired(text("wc:u"))), "OK wc:u\n");
    assert_eq!(reply(&Outcome::ReadFailed), "ERR read failed\n");
    assert_eq!(reply(&Outcome::Unknown), "ERR unknown command\n");
    assert_eq!(reply(&Outcome::ShuttingDown), "ERR daemon shutting down\n");
    assert_eq!(reply(&Outcome::InvalidUri(text("e"))), "ERR invalid URI: e\n");
}

#[test]
fn telemetry_levels_are_read() {
    assert_eq!(telemetry_level(&None), Some(TelemetryLevel::Info));
    assert_eq!(telemetry_level(&some(" OFF ")), None);
    assert_eq!(telemetry_level(&some("0")), None);
    assert_eq!(telemetry_level(&some("none")), None);
    assert_eq!(telemetry_level(&some("trace")), Some(TelemetryLevel::Trace));
    assert_eq!(telemetry_level(&some("Debug")), Some(TelemetryLevel::Debug));
    assert_eq!(telemetry_level(&some("warning")), Some(TelemetryLevel::Warn));
    assert_eq!(telemetry_level(&some("error")), Some(TelemetryLevel::Error));
    assert_eq!(telemetry_level(&some("inof")), Some(TelemetryLevel::Info));
}

#[test]
fn telemetry_is_announced() {
    let off = telemetry_line(&Telemetry::Off(text(" off")));
    assert_eq!(off, "telemetry: disabled (OC_TELEMETRY_LEVEL= off)");
    let on = telemetry_line(&Telemetry::On(text("info")));
    assert_eq!(on, "telemetry: buffering at info (drain via DrainTelemetry RPC)");
    assert!(telemetry_line(&Telemetry::Taken).contains("already installed"));
    assert_eq!(drain_line(5), "telemetry: draining every 5s");
}

#[test]
fn drains_are_at_least_a_second_apart() {
    assert_eq!(drain_interval(false, &some("9")), None);
    assert_eq!(drain_interval(true, &None), Some(5));
    assert_eq!(drain_interval(true, &some("x")), Some(5));
    assert_eq!(drain_interval(true, &some(" 0 ")), Some(1));
    assert_eq!(drain_interval(true, &some("30")), Some(30));
}

#[test]
fn relays_are_chosen() {
    assert_eq!(relay_url(&some("wss://e"), "wss://c"), "wss://c");
    assert_eq!(relay_url(&some("wss://e"), ""), "wss://e");
    assert_eq!(relay_url(&some(""), "wss://c"), "wss://c");
    assert_eq!(relay_url(&None, ""), "wss://relay.walletconnect.com");
}

#[test]
fn missing_policies_are_loud() {
    assert_eq!(policy_line("/p", &PolicyRead::Loaded), "WC policy loaded from /p");
    let m = policy_line("/p", &PolicyRead::Malformed(text("eof")));
    assert_eq!(m, "WARNING: malformed /p (eof) — WC signing runs WITHOUT policy evaluation");
    let m = policy_line("/p", &PolicyRead::Missing(text("no file")));
    assert!(m.starts_with("WARNING: no WC policy at /p (no file) — "));
}

#[test]
fn passkeys_are_bound_to_a_wallet() {
    assert_eq!(binding_wallet(&some("id-1")).unwrap(), "id-1");
    assert!(binding_wallet(&some("")).unwrap_err().contains("no wallet exists"));
    assert!(binding_wallet(&None).is_err());
}

#[test]
fn listeners_can_be_off() {
    assert!(wallet_rpc_enabled("127.0.0.1:1"));
    assert!(!wallet_rpc_enabled("off"));
    assert!(!wallet_rpc_enabled(""));
    assert_eq!(rpc_listen_line("x", "bad"), "invalid OC_RPC_LISTEN 'x': bad");
    assert_eq!(
        wallet_rpc_listen_line("x", "bad"),
        "invalid OC_WALLET_RPC_LISTEN 'x': bad; WalletSigner server disabled"
    );
}

#[test]
fn startup_errors_are_named() {
    assert_eq!(engine_error("locked").code(), "DAEMON_INIT_FAILED");
    assert!(engine_error("locked").message().contains("key engine: locked"));
    assert!(bind_error("/s", "in use").message().contains("bind control socket /s: in use"));
    assert_eq!(token_error("x").code(), "KEY_AGENT_ERROR");
    assert!(isolation_warning(true, false).unwrap().contains("macOS network isolation degraded"));
    assert!(isolation_warning(true, true).is_none() && isolation_warning(false, false).is_none());
    assert_eq!(
        sandbox_line(true, false, true),
        "key-agent sandbox active: network_blocked=true coredump_disabled=false ptrace_denied=true"
    );
}

#[test]
fn only_started_servers_are_watched() {
    assert_eq!(watched_servers(false, false, false), vec!["control socket task", "WC server"]);
    let all = watched_servers(true, true, true);
    assert_eq!(
        all,
        vec![
            "control socket task",
            "WC server",
            "Web UI server",
            "HTTP-RPC server",
            "WalletSigner server"
        ]
    );
    assert_eq!(watched_servers(false, true, false)[2], "HTTP-RPC server");
}

#[test]
fn signals_stop_gracefully() {
    let s = shutdown(&Event::Signal(15));
    assert!(s.stop && s.result.is_ok());
    assert_eq!(s.signal, Some(15));
    assert_eq!(s.line.unwrap(), "daemon received signal 15; shutting down gracefully");
    let s = shutdown(&Event::CtrlC);
    assert!(s.stop && s.signal.is_none());
    assert_eq!(s.line.unwrap(), "daemon shutting down");
}

#[test]
fn exits_end_the_daemon() {
    let s = shutdown(&Event::ServerExit(text("WC server")));
    assert_eq!(s.line.unwrap(), "WC server exited");
    assert!(!s.stop && s.result.is_ok());
    let s = shutdown(&Event::KeyAgentDied(text("boom")));
    assert_eq!(s.line.unwrap(), "key-agent thread exited: boom");
    assert!(s.result.unwrap_err().message().contains("key-agent died: boom"));
    let s = shutdown(&Event::KeyAgentGone);
    assert!(s.result.unwrap_err().message().contains("key-agent thread exited"));
    let s = shutdown(&Event::KeyAgentMonitorFailed);
    assert_eq!(s.line, None);
    assert!(s.result.is_err());
    let s = shutdown(&Event::NotifierGone);
    assert!(s.result.is_ok() && !s.stop);
    assert_eq!(shutdown(&Event::NotifierFailed).line, None);
}

#[test]
fn grace_is_reported() {
    let l = after_grace(true, 2);
    assert_eq!(l, vec!["background tasks stopped cleanly", "daemon stopped by signal 2"]);
    let l = after_grace(false, 15);
    assert_eq!(l[0], "shutdown grace period (15s) elapsed; exiting anyway");
}
