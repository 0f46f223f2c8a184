//! What the daemon decides: its settings, and how it ends.
pub mod control_socket;

use vstd::prelude::*;

use crate::commands::wc::{client_relay, is_relay_url};
use crate::error::{CliError, CliErrorView};
use crate::text::{
    ascii_lower, bool_text, dec, decimal, opt_text, parse_u64, parsed, same, show_bool, texts,
    to_ascii_lower, trim, trimmed,
};

verus! {

// ---------------------------------------------------------------------------
// Settings
// ---------------------------------------------------------------------------

/// How much is recorded.
#[derive(Clone, Copy, Debug, PartialEq, Eq, Structural)]
pub enum TelemetryLevel {
    Trace,
    Debug,
    Info,
    Warn,
    Error,
}

/// The level that a setting names; `None` turns recording off. What is not
/// known is the usual level.
pub open spec fn level_of(raw: Seq<char>) -> Option<TelemetryLevel> {
    let s = ascii_lower(trim(raw));
    if s == "off"@ || s == "none"@ || s == "0"@ {
        None
    } else if s == "trace"@ {
        Some(TelemetryLevel::Trace)
    } else if s == "debug"@ {
        Some(TelemetryLevel::Debug)
    } else if s == "warn"@ || s == "warning"@ {
        Some(TelemetryLevel::Warn)
    } else if s == "error"@ {
        Some(TelemetryLevel::Error)
    } else {
        Some(TelemetryLevel::Info)
    }
}

/// The level that `OC_TELEMETRY_LEVEL` names.
pub fn telemetry_level(raw: &Option<String>) -> (r: Option<TelemetryLevel>)
    ensures
        r == match opt_text(*raw) {
            Some(s) => level_of(s),
            None => Some(TelemetryLevel::Info),
        },
{
    let s = match raw {
        Some(s) => to_ascii_lower(trimmed(s.as_str()).as_str()),
        None => return Some(TelemetryLevel::Info),
    };
    let s = s.as_str();
    if same(s, "off") || same(s, "none") || same(s, "0") {
        None
    } else if same(s, "trace") {
        Some(TelemetryLevel::Trace)
    } else if same(s, "debug") {
        Some(TelemetryLevel::Debug)
    } else if same(s, "warn") || same(s, "warning") {
        Some(TelemetryLevel::Warn)
    } else if same(s, "error") {
        Some(TelemetryLevel::Error)
    } else {
        Some(TelemetryLevel::Info)
    }
}

/// What is printed about recording.
#[derive(Debug)]
pub enum Telemetry {
    /// Turned off by this setting.
    Off(String),
    /// On, at a level with this name.
    On(String),
    /// Somebody else records already.
    Taken,
}

/// What is printed about recording; it never keeps the daemon from starting.
pub fn telemetry_line(t: &Telemetry) -> (r: String)
    ensures
        r@ == match *t {
            Telemetry::Off(raw) => "telemetry: disabled (OC_TELEMETRY_LEVEL="@ + raw@ + ")"@,
            Telemetry::On(level) => "telemetry: buffering at "@ + level@
                + " (drain via DrainTelemetry RPC)"@,
            Telemetry::Taken => "telemetry: a global subscriber is already installed; skipping"@,
        },
{
    match t {
        Telemetry::Off(raw) => "telemetry: disabled (OC_TELEMETRY_LEVEL=".to_owned().concat(
            raw.as_str(),
        ).concat(")"),
        Telemetry::On(level) => "telemetry: buffering at ".to_owned().concat(
            level.as_str(),
        ).concat(" (drain via DrainTelemetry RPC)"),
        Telemetry::Taken =>
            "telemetry: a global subscriber is already installed; skipping".to_owned(),
    }
}

/// The usual seconds between two drains of what was recorded.
pub const DEFAULT_DRAIN_SECS: u64 = 5;

/// The seconds between two drains of what was recorded: at least one, and the
/// usual ones without a setting that is a number.
pub open spec fn interval_of(raw: Option<Seq<char>>) -> int {
    let given = match raw {
        Some(s) => parsed(trim(s), u64::MAX as int),
        None => None,
    };
    match given {
        Some(n) => if n < 1 {
            1
        } else {
            n
        },
        None => DEFAULT_DRAIN_SECS as int,
    }
}

/// The seconds between two drains; nothing is drained when nothing is
/// recorded.
pub fn drain_interval(enabled: bool, raw: &Option<String>) -> (r: Option<u64>)
    ensures
        match r {
            Some(n) => enabled && n == interval_of(opt_text(*raw)),
            None => !enabled,
        },
{
    if !enabled {
        return None;
    }
    let given: Option<u64> = match raw {
        Some(s) => parse_u64(trimmed(s.as_str()).as_str()),
        None => None,
    };
    match given {
        Some(n) => {
            if n < 1 {
                Some(1)
            } else {
                Some(n)
            }
        },
        None => Some(DEFAULT_DRAIN_SECS),
    }
}

/// What is printed when draining starts.
pub fn drain_line(secs: u64) -> (r: String)
    ensures
        r@ == "telemetry: draining every "@ + decimal(secs as int) + "s"@,
{
    "telemetry: draining every ".to_owned().concat(dec(secs as u128).as_str()).concat("s")
}

/// What is printed once the signing thread is confined.
pub fn sandbox_line(network_blocked: bool, coredump_disabled: bool, ptrace_denied: bool) -> (r:
    String)
    ensures
        r@ == "key-agent sandbox active: network_blocked="@ + bool_text(network_blocked)
            + " coredump_disabled="@ + bool_text(coredump_disabled) + " ptrace_denied="@
            + bool_text(ptrace_denied),
{
    "key-agent sandbox active: network_blocked=".to_owned().concat(
        show_bool(network_blocked),
    ).concat(" coredump_disabled=").concat(show_bool(coredump_disabled)).concat(
        " ptrace_denied=",
    ).concat(show_bool(ptrace_denied))
}

/// The warning when a signing thread on macOS can still reach the network.
pub fn isolation_warning(macos: bool, network_blocked: bool) -> (r: Option<String>)
    ensures
        opt_text(r) == if macos && !network_blocked {
            Some(
                "WARNING: macOS network isolation degraded — signing thread has no Seatbelt filter; ensure R12a source scan and lsof checks in CI"@,
            )
        } else {
            None
        },
{
    if macos && !network_blocked {
        Some(
            "WARNING: macOS network isolation degraded — signing thread has no Seatbelt filter; ensure R12a source scan and lsof checks in CI".to_owned(),
        )
    } else {
        None
    }
}

/// The relay: from the configuration, the environment, or the usual one. Empty
/// settings do not count.
pub open spec fn relay_of(env: Option<Seq<char>>, config: Seq<char>) -> Seq<char> {
    if config.len() > 0 {
        config
    } else if env matches Some(e) && e.len() > 0 {
        env->0
    } else {
        "wss://relay.walletconnect.com"@
    }
}

/// The relay.
pub fn relay_url(env: &Option<String>, config: &str) -> (r: String)
    ensures
        r@ == relay_of(opt_text(*env), config@),
{
    if config.unicode_len() > 0 {
        return config.to_owned();
    }
    if let Some(e) = env {
        if e.as_str().unicode_len() > 0 {
            return e.clone();
        }
    }
    "wss://relay.walletconnect.com".to_owned()
}

/// The daemon and a client without overrides use the same relay.
pub proof fn law_daemon_and_client_share_a_relay(env: Option<Seq<char>>, config: Seq<char>)
    ensures
        client_relay(None, config, env) == relay_of(env, config),
{
}

/// A relay that was saved with `wc relay` is the one that the daemon and the
/// client use, whatever the environment says.
pub proof fn law_saved_relay_is_used(url: Seq<char>, env: Option<Seq<char>>)
    requires
        is_relay_url(url),
    ensures
        relay_of(env, url) == url,
        client_relay(None, url, env) == url,
{
    reveal_strlit("wss://");
    reveal_strlit("ws://");
}

/// What came of reading the policy for WalletConnect.
#[derive(Debug)]
pub enum PolicyRead {
    Loaded,
    Malformed(String),
    Missing(String),
}

/// What is printed about the policy. Signing without one is never silent.
pub fn policy_line(path: &str, p: &PolicyRead) -> (r: String)
    ensures
        r@ == match *p {
            PolicyRead::Loaded => "WC policy loaded from "@ + path@,
            PolicyRead::Malformed(m) => "WARNING: malformed "@ + path@ + " ("@ + m@
                + ") — WC signing runs WITHOUT policy evaluation"@,
            PolicyRead::Missing(m) => "WARNING: no WC policy at "@ + path@ + " ("@ + m@
                + ") — chain whitelists, expiry and risk checks are NOT enforced on WalletConnect signing; create ~/.onecipher/wc-policy.json or set OC_WC_POLICY=off to explicitly opt out"@,
        },
{
    match p {
        PolicyRead::Loaded => "WC policy loaded from ".to_owned().concat(path),
        PolicyRead::Malformed(m) => "WARNING: malformed ".to_owned().concat(path).concat(
            " (",
        ).concat(m.as_str()).concat(") — WC signing runs WITHOUT policy evaluation"),
        PolicyRead::Missing(m) => "WARNING: no WC policy at ".to_owned().concat(path).concat(
            " (",
        ).concat(m.as_str()).concat(
            ") — chain whitelists, expiry and risk checks are NOT enforced on WalletConnect signing; create ~/.onecipher/wc-policy.json or set OC_WC_POLICY=off to explicitly opt out",
        ),
    }
}

/// The wallet that a passkey of the browser is bound to: the first one. A
/// passkey that is bound to none is refused.
pub fn binding_wallet(first: &Option<String>) -> (r: Result<String, String>)
    ensures
        match r {
            Ok(w) => opt_text(*first) == Some(w@) && w@.len() > 0,
            Err(m) => (first matches Some(w) ==> w@.len() == 0) && m@
                == "webui passkey registration refused: no wallet exists to bind the credential to"@,
        },
{
    if let Some(w) = first {
        if w.as_str().unicode_len() > 0 {
            return Ok(w.clone());
        }
    }
    Err("webui passkey registration refused: no wallet exists to bind the credential to".to_owned())
}

/// Whether the signer for local programs is started.
pub fn wallet_rpc_enabled(listen: &str) -> (r: bool)
    ensures
        r == (listen@.len() > 0 && listen@ != "off"@),
{
    listen.unicode_len() > 0 && !same(listen, "off")
}

/// Why the local server is not started.
pub fn rpc_listen_line(listen: &str, message: &str) -> (r: String)
    ensures
        r@ == "invalid OC_RPC_LISTEN '"@ + listen@ + "': "@ + message@,
{
    "invalid OC_RPC_LISTEN '".to_owned().concat(listen).concat("': ").concat(message)
}

/// Why the signer for local programs is not started.
pub fn wallet_rpc_listen_line(listen: &str, message: &str) -> (r: String)
    ensures
        r@ == "invalid OC_WALLET_RPC_LISTEN '"@ + listen@ + "': "@ + message@
            + "; WalletSigner server disabled"@,
{
    "invalid OC_WALLET_RPC_LISTEN '".to_owned().concat(listen).concat("': ").concat(
        message,
    ).concat("; WalletSigner server disabled")
}

/// A startup step that failed.
pub fn engine_error(message: &str) -> (e: CliError)
    ensures
        e@ == CliErrorView::DaemonInit("key engine: "@ + message@),
{
    CliError::DaemonInit("key engine: ".to_owned().concat(message))
}

/// The control socket could not be had.
pub fn bind_error(path: &str, message: &str) -> (e: CliError)
    ensures
        e@ == CliErrorView::DaemonInit("bind control socket "@ + path@ + ": "@ + message@),
{
    CliError::DaemonInit(
        "bind control socket ".to_owned().concat(path).concat(": ").concat(message),
    )
}

/// The token that authorizes signing requests could not be installed: the
/// daemon does not start without it.
pub fn token_error(message: &str) -> (e: CliError)
    ensures
        e@ == CliErrorView::KeyAgent("install sign-auth internal token: "@ + message@),
{
    CliError::KeyAgent("install sign-auth internal token: ".to_owned().concat(message))
}

// ---------------------------------------------------------------------------
// The end
// ---------------------------------------------------------------------------

/// The servers whose end is the end of the daemon. One that was never started
/// is none of them.
pub open spec fn watched(webui: bool, rpc: bool, wallet_rpc: bool) -> Seq<Seq<char>> {
    seq!["control socket task"@, "WC server"@] + (if webui {
        seq!["Web UI server"@]
    } else {
        seq![]
    }) + (if rpc {
        seq!["HTTP-RPC server"@]
    } else {
        seq![]
    }) + (if wallet_rpc {
        seq!["WalletSigner server"@]
    } else {
        seq![]
    })
}

/// The servers whose end is the end of the daemon, from which ones were
/// started.
pub fn watched_servers(webui: bool, rpc: bool, wallet_rpc: bool) -> (r: Vec<String>)
    ensures
        texts(r@) == watched(webui, rpc, wallet_rpc),
{
    let mut out: Vec<String> = Vec::new();
    out.push("control socket task".to_owned());
    out.push("WC server".to_owned());
    if webui {
        out.push("Web UI server".to_owned());
    }
    if rpc {
        out.push("HTTP-RPC server".to_owned());
    }
    if wallet_rpc {
        out.push("WalletSigner server".to_owned());
    }
    assert(texts(out@) =~= watched(webui, rpc, wallet_rpc));
    out
}

/// What ends the daemon.
#[derive(Debug)]
pub enum Event {
    /// Interrupted at the terminal.
    CtrlC,
    /// A signal.
    Signal(u32),
    /// Nobody waits for signals any more.
    NotifierGone,
    /// Waiting for signals failed.
    NotifierFailed,
    /// A server ended.
    ServerExit(String),
    /// The key agent ended with an error.
    KeyAgentDied(String),
    /// The key agent ended.
    KeyAgentGone,
    /// Watching the key agent failed.
    KeyAgentMonitorFailed,
}

/// How the daemon ends.
#[derive(Debug)]
pub struct Shutdown {
    /// What is printed.
    pub line: Option<String>,
    /// The servers are asked to stop first.
    pub stop: bool,
    pub result: Result<(), CliError>,
    /// The signal that is reported by the exit status.
    pub signal: Option<u32>,
}

/// What is printed at an event.
pub open spec fn event_line(e: Event) -> Option<Seq<char>> {
    match e {
        Event::CtrlC => Some("daemon shutting down"@),
        Event::Signal(n) => Some(
            "daemon received signal "@ + decimal(n as int) + "; shutting down gracefully"@,
        ),
        Event::NotifierGone => Some("signal notifier exited without delivering a signal"@),
        Event::NotifierFailed => None,
        Event::ServerExit(name) => Some(name@ + " exited"@),
        Event::KeyAgentDied(m) => Some("key-agent thread exited: "@ + m@),
        Event::KeyAgentGone => Some("key-agent thread exited without error"@),
        Event::KeyAgentMonitorFailed => None,
    }
}

/// The error that an event ends the daemon with. Without the key agent there is
/// no daemon.
pub open spec fn event_error(e: Event) -> Option<CliErrorView> {
    match e {
        Event::KeyAgentDied(m) => Some(CliErrorView::KeyAgent("key-agent died: "@ + m@)),
        Event::KeyAgentGone => Some(CliErrorView::KeyAgent("key-agent thread exited"@)),
        Event::KeyAgentMonitorFailed => Some(
            CliErrorView::KeyAgent("key-agent monitor task failed"@),
        ),
        _ => None,
    }
}

/// `s` is how an event ends the daemon.
pub open spec fn is_shutdown(s: Shutdown, e: Event) -> bool {
    &&& opt_text(s.line) == event_line(e)
    &&& s.stop == (e is CtrlC || e is Signal)
    &&& match event_error(e) {
        Some(x) => s.result matches Err(y) && y@ == x,
        None => s.result is Ok,
    }
    &&& s.signal == match e {
        Event::Signal(n) => Some(n),
        _ => None,
    }
}

/// How an event ends the daemon.
pub fn shutdown(e: &Event) -> (s: Shutdown)
    ensures
        is_shutdown(s, *e),
{
    match e {
        Event::CtrlC => Shutdown {
            line: Some("daemon shutting down".to_owned()),
            stop: true,
            result: Ok(()),
            signal: None,
        },
        Event::Signal(n) => Shutdown {
            line: Some(
                "daemon received signal ".to_owned().concat(dec(*n as u128).as_str()).concat(
                    "; shutting down gracefully",
                ),
            ),
            stop: true,
            result: Ok(()),
            signal: Some(*n),
        },
        Event::NotifierGone => Shutdown {
            line: Some("signal notifier exited without delivering a signal".to_owned()),
            stop: false,
            result: Ok(()),
            signal: None,
        },
        Event::NotifierFailed => Shutdown {
            line: None,
            stop: false,
            result: Ok(()),
            signal: None,
        },
        Event::ServerExit(name) => Shutdown {
            line: Some(name.clone().concat(" exited")),
            stop: false,
            result: Ok(()),
            signal: None,
        },
        Event::KeyAgentDied(m) => Shutdown {
            line: Some("key-agent thread exited: ".to_owned().concat(m.as_str())),
            stop: false,
            result: Err(CliError::KeyAgent("key-agent died: ".to_owned().concat(m.as_str()))),
            signal: None,
        },
        Event::KeyAgentGone => Shutdown {
            line: Some("key-agent thread exited without error".to_owned()),
            stop: false,
            result: Err(CliError::KeyAgent("key-agent thread exited".to_owned())),
            signal: None,
        },
        Event::KeyAgentMonitorFailed => Shutdown {
            line: None,
            stop: false,
            result: Err(CliError::KeyAgent("key-agent monitor task failed".to_owned())),
            signal: None,
        },
    }
}

/// Asks the key agent and the WalletConnect server to stop. Every way of
/// stopping takes this one.
pub fn graceful_stop(ka_stop: &mut bool, wc_cancel: &mut bool)
    ensures
        *final(ka_stop),
        *final(wc_cancel),
{
    *ka_stop = true;
    *wc_cancel = true;
}

/// How long servers are waited for after a signal, in seconds.
pub const SHUTDOWN_GRACE_SECS: u64 = 15;

/// What is printed after servers were waited for; `clean` is whether all of
/// them ended.
pub open spec fn grace_lines(clean: bool, sig: u32) -> Seq<Seq<char>> {
    seq![
        if clean {
            "background tasks stopped cleanly"@
        } else {
            "shutdown grace period (15s) elapsed; exiting anyway"@
        },
        "daemon stopped by signal "@ + decimal(sig as int),
    ]
}

/// What is printed after servers were waited for.
pub fn after_grace(clean: bool, sig: u32) -> (r: Vec<String>)
    ensures
        texts(r@) == grace_lines(clean, sig),
{
    let mut out: Vec<String> = Vec::new();
    if clean {
        out.push("background tasks stopped cleanly".to_owned());
    } else {
        out.push("shutdown grace period (15s) elapsed; exiting anyway".to_owned());
    }
    out.push("daemon stopped by signal ".to_owned().concat(dec(sig as u128).as_str()));
    assert(texts(out@) =~= grace_lines(clean, sig));
    out
}

/// The exit status of a program that a signal ended: 128 and the number of the
/// signal, of which there are 64.
pub fn signal_exit_status(sig: u32) -> (r: i32)
    ensures
        r == 128 + if sig < 64 {
            sig as int
        } else {
            64
        },
{
    if sig < 64 {
        128 + sig as i32
    } else {
        128 + 64
    }
}

/// A signal always takes the graceful path, and is the only thing that its
/// exit status reports.
pub proof fn law_signals_stop_gracefully(s: Shutdown, e: Event)
    requires
        is_shutdown(s, e),
    ensures
        s.signal is Some ==> s.stop && s.result is Ok,
        s.result is Err ==> !s.stop,
{
}

/// Drains are at least a second apart; a setting that is a number is kept from
/// one on, and five seconds are the usual ones.
pub proof fn law_drains_are_apart(raw: Option<Seq<char>>)
    ensures
        interval_of(raw) >= 1,
        raw is None ==> interval_of(raw) == 5,
        (raw matches Some(s) && parsed(trim(s), u64::MAX as int) is None) ==> interval_of(raw) == 5,
        (raw matches Some(s) && (parsed(trim(s), u64::MAX as int) matches Some(n) && n >= 1))
            ==> Some(interval_of(raw)) == parsed(trim(raw->0), u64::MAX as int),
{
}

/// Telemetry is off exactly when it is turned off, and each level has its words;
/// anything else is the usual level.
pub proof fn law_telemetry_words(raw: Seq<char>)
    ensures
        ({
            let s = ascii_lower(trim(raw));
            &&& level_of(raw) is None <==> s == "off"@ || s == "none"@ || s == "0"@
            &&& s == "trace"@ ==> level_of(raw) == Some(TelemetryLevel::Trace)
            &&& s == "debug"@ ==> level_of(raw) == Some(TelemetryLevel::Debug)
            &&& s == "warn"@ || s == "warning"@ ==> level_of(raw) == Some(TelemetryLevel::Warn)
            &&& s == "error"@ ==> level_of(raw) == Some(TelemetryLevel::Error)
            &&& s == "info"@ ==> level_of(raw) == Some(TelemetryLevel::Info)
        }),
{
    reveal_strlit("off");
    reveal_strlit("none");
    reveal_strlit("0");
    reveal_strlit("trace");
    reveal_strlit("debug");
    reveal_strlit("warn");
    reveal_strlit("warning");
    reveal_strlit("error");
    reveal_strlit("info");
    assert("off"@.len() == 3 && "off"@[0] == 'o' && "none"@.len() == 4 && "none"@[0] == 'n'
        && "0"@.len() == 1 && "0"@[0] == '0' && "trace"@.len() == 5 && "trace"@[0] == 't'
        && "debug"@.len() == 5 && "debug"@[0] == 'd' && "warn"@.len() == 4 && "warn"@[0] == 'w'
        && "warning"@.len() == 7 && "warning"@[0] == 'w' && "error"@.len() == 5
        && "error"@[0] == 'e' && "info"@.len() == 4 && "info"@[0] == 'i');
}

/// The end of the key agent, and nothing else, ends the daemon with an error;
/// an interruption and a signal, and nothing else, stop the servers first; and a
/// signal is the one that is reported.
pub proof fn law_only_the_key_agent_is_an_error(s: Shutdown, e: Event)
    requires
        is_shutdown(s, e),
    ensures
        s.result is Err <==> e is KeyAgentDied || e is KeyAgentGone || e is KeyAgentMonitorFailed,
        s.stop <==> e is CtrlC || e is Signal,
        e matches Event::Signal(n) ==> s.signal == Some(n),
        !(e is Signal) ==> s.signal is None,
        s.line is None <==> e is NotifierFailed || e is KeyAgentMonitorFailed,
{
}

/// The control socket and the WalletConnect server are always watched, each
/// other server exactly when it runs.
pub proof fn law_running_servers_are_watched(webui: bool, rpc: bool, wallet_rpc: bool)
    ensures
        watched(webui, rpc, wallet_rpc).contains("control socket task"@),
        watched(webui, rpc, wallet_rpc).contains("WC server"@),
        webui ==> watched(webui, rpc, wallet_rpc).contains("Web UI server"@),
        rpc ==> watched(webui, rpc, wallet_rpc).contains("HTTP-RPC server"@),
        wallet_rpc ==> watched(webui, rpc, wallet_rpc).contains("WalletSigner server"@),
        watched(webui, rpc, wallet_rpc).len() == 2 + (if webui {
            1int
        } else {
            0
        }) + (if rpc {
            1int
        } else {
            0
        }) + (if wallet_rpc {
            1int
        } else {
            0
        }),
{
    let w = watched(webui, rpc, wallet_rpc);
    assert(w[0] == "control socket task"@);
    assert(w[1] == "WC server"@);
    let a: int = if webui {
        1
    } else {
        0
    };
    let b: int = if rpc {
        1
    } else {
        0
    };
    if webui {
        assert(w[2] == "Web UI server"@);
    }
    if rpc {
        assert(w[2 + a] == "HTTP-RPC server"@);
    }
    if wallet_rpc {
        assert(w[2 + a + b] == "WalletSigner server"@);
    }
}

/// The last words name the signal, and say whether the tasks stopped in time.
pub proof fn law_last_words_name_the_signal(clean: bool, sig: u32)
    ensures
        grace_lines(clean, sig).len() == 2,
        grace_lines(clean, sig)[1] == "daemon stopped by signal "@ + decimal(sig as int),
        grace_lines(clean, sig)[0] == "background tasks stopped cleanly"@ <==> clean,
        grace_lines(clean, sig)[0] == "shutdown grace period (15s) elapsed; exiting anyway"@
            <==> !clean,
        SHUTDOWN_GRACE_SECS == 15,
{
    reveal_strlit("background tasks stopped cleanly");
    reveal_strlit("shutdown grace period (15s) elapsed; exiting anyway");
    assert("background tasks stopped cleanly"@.len() == 32
        && "background tasks stopped cleanly"@[0] == 'b'
        && "shutdown grace period (15s) elapsed; exiting anyway"@.len() == 51
        && "shutdown grace period (15s) elapsed; exiting anyway"@[0] == 's');
}

} // verus!
