//! The client of the key agent: reaching it, starting it, and reading its
//! answers.
use vstd::prelude::*;

use crate::error::{invalid, invalid_args, CliError, CliErrorView};
use crate::path::{child, child_path};
use crate::text::{dec_signed, opt_text, signed_decimal};

verus! {

/// How long a started daemon is waited for, in milliseconds.
pub const READY_TIMEOUT_MS: u64 = 3000;

/// The file that keeps two programs from starting the daemon at once.
pub fn lock_file_path(home: &Option<String>) -> (r: String)
    ensures
        r@ == child_path(
            child_path(
                match opt_text(*home) {
                    Some(h) => h,
                    None => "/tmp"@,
                },
                ".onecipher"@,
            ),
            "agent.spawn-lock"@,
        ),
{
    let home = match home {
        Some(h) => h.clone(),
        None => "/tmp".to_owned(),
    };
    child(child(home.as_str(), ".onecipher").as_str(), "agent.spawn-lock")
}

/// The steps of reaching the daemon.
#[derive(Clone, Copy, Debug, PartialEq, Eq, Structural)]
pub enum Step {
    /// Try the socket.
    Probe,
    /// Remove a socket that nobody listens on, and try to take the lock.
    Lock,
    /// Try the socket again: another program may have started the daemon.
    ProbeLocked,
    /// Start the daemon.
    Spawn,
    /// Try the socket until it answers.
    Poll,
    /// The daemon answers.
    Connected,
    /// It did not answer in time: the lock is removed.
    TimedOut,
}

/// What follows a step. `answered` is whether the socket answered, where it was
/// tried, `locked` whether the lock was obtained, and `elapsed_ms` how long the
/// daemon was waited for. Who did not get the lock waits for the daemon that its
/// holder starts.
pub open spec fn follows(s: Step, answered: bool, locked: bool, elapsed_ms: u64) -> Step {
    match s {
        Step::Probe => if answered {
            Step::Connected
        } else {
            Step::Lock
        },
        Step::Lock => Step::ProbeLocked,
        Step::ProbeLocked => if answered {
            Step::Connected
        } else if locked {
            Step::Spawn
        } else {
            Step::Poll
        },
        Step::Spawn => Step::Poll,
        Step::Poll => if elapsed_ms >= READY_TIMEOUT_MS {
            Step::TimedOut
        } else if answered {
            Step::Connected
        } else {
            Step::Poll
        },
        Step::Connected => Step::Connected,
        Step::TimedOut => Step::TimedOut,
    }
}

/// What follows a step.
pub fn next_step(s: Step, answered: bool, locked: bool, elapsed_ms: u64) -> (r: Step)
    ensures
        r == follows(s, answered, locked, elapsed_ms),
{
    match s {
        Step::Probe => {
            if answered {
                Step::Connected
            } else {
                Step::Lock
            }
        },
        Step::Lock => Step::ProbeLocked,
        Step::ProbeLocked => {
            if answered {
                Step::Connected
            } else if locked {
                Step::Spawn
            } else {
                Step::Poll
            }
        },
        Step::Spawn => Step::Poll,
        Step::Poll => {
            if elapsed_ms >= READY_TIMEOUT_MS {
                Step::TimedOut
            } else if answered {
                Step::Connected
            } else {
                Step::Poll
            }
        },
        Step::Connected => Step::Connected,
        Step::TimedOut => Step::TimedOut,
    }
}

/// The daemon did not answer in time.
pub fn timed_out(socket_path: &str) -> (r: String)
    ensures
        r@ == "timed out waiting for Key-Agent daemon at "@ + socket_path@,
{
    "timed out waiting for Key-Agent daemon at ".to_owned().concat(socket_path)
}

/// An answer of the key agent.
#[derive(Debug)]
pub enum Answer {
    /// The bytes of a response.
    Response(Vec<u8>),
    /// Denied by policy, for a reason.
    Deny(i32),
    Error(String),
    Empty,
}

/// The bytes of the response, or why there is none.
pub fn decode_ok(a: Answer) -> (r: Result<Vec<u8>, CliError>)
    ensures
        match a {
            Answer::Response(b) => r matches Ok(x) && x@ == b@,
            Answer::Deny(reason) => r matches Err(e) && e@ == CliErrorView::InvalidArgs(
                "request denied by policy (reason code: "@ + signed_decimal(reason as int) + ")"@,
            ),
            Answer::Error(m) => r matches Err(e) && e@ == CliErrorView::InvalidArgs(
                "key-agent error: "@ + m@,
            ),
            Answer::Empty => r matches Err(e) && e@ == CliErrorView::InvalidArgs(
                "empty response from key-agent"@,
            ),
        },
{
    match a {
        Answer::Response(b) => Ok(b),
        Answer::Deny(reason) => Err(
            invalid_args(
                "request denied by policy (reason code: ".to_owned().concat(
                    dec_signed(reason as i64).as_str(),
                ).concat(")"),
            ),
        ),
        Answer::Error(m) => Err(invalid_args("key-agent error: ".to_owned().concat(m.as_str()))),
        Answer::Empty => Err(invalid("empty response from key-agent")),
    }
}

/// The key agent cannot list session keys yet.
pub fn list_session_keys_unsupported() -> (e: CliError)
    ensures
        e@ == CliErrorView::InvalidArgs(
            "ListSessionKeys not supported by Key-Agent (T18 pending)"@,
        ),
{
    invalid("ListSessionKeys not supported by Key-Agent (T18 pending)")
}

/// The daemon is started only by who holds the lock, after the socket was tried
/// under it: no other step leads to starting it.
pub proof fn law_spawn_only_under_the_lock(
    s: Step,
    answered: bool,
    locked: bool,
    elapsed_ms: u64,
)
    ensures
        follows(s, answered, locked, elapsed_ms) == Step::Spawn <==> s == Step::ProbeLocked
            && !answered && locked,
{
}

/// A connection is reported only when the daemon answered, and a timeout only
/// after three seconds of polling without one; what ended stays so.
pub proof fn law_connected_means_answered(s: Step, answered: bool, locked: bool, elapsed_ms: u64)
    ensures
        follows(s, answered, locked, elapsed_ms) == Step::Connected <==> s == Step::Connected || (
        answered && (s == Step::Probe || s == Step::ProbeLocked || (s == Step::Poll && elapsed_ms
            < 3000))),
        follows(s, answered, locked, elapsed_ms) == Step::TimedOut <==> s == Step::TimedOut || (s
            == Step::Poll && elapsed_ms >= 3000),
        follows(s, answered, locked, elapsed_ms) == Step::Lock <==> s == Step::Probe && !answered,
        s == Step::ProbeLocked && !answered && !locked ==> follows(s, answered, locked, elapsed_ms)
            == Step::Poll,
        s == Step::Poll && !answered && elapsed_ms < 3000 ==> follows(
            s,
            answered,
            locked,
            elapsed_ms,
        ) == Step::Poll,
{
}

} // verus!
