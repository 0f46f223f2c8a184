//! `service`: the systemd user unit of the daemon.
use vstd::prelude::*;

use crate::path::{child, child_path};

verus! {

/// The directory of the user's units.
pub open spec fn user_dir(home: Seq<char>) -> Seq<char> {
    child_path(child_path(child_path(home, ".config"@), "systemd"@), "user"@)
}

/// The directory of the user's units.
pub fn systemd_user_dir(home: &str) -> (r: String)
    ensures
        r@ == user_dir(home@),
{
    child(child(child(home, ".config").as_str(), "systemd").as_str(), "user")
}

/// The file of the unit.
pub fn unit_path(home: &str) -> (r: String)
    ensures
        r@ == child_path(user_dir(home@), "onecipher.service"@),
{
    child(systemd_user_dir(home).as_str(), "onecipher.service")
}

/// The unit that runs `exe` as the daemon.
pub fn unit_text(exe: &str) -> (r: String)
    ensures
        r@
            == "[Unit]\nDescription=OneCipher wallet daemon (WC v2 wallet + signing engine)\nAfter=network-online.target\nWants=network-online.target\n\n[Service]\nExecStart="@
            + exe@
            + " --daemon\nRestart=on-failure\nRestartSec=2\n\n[Install]\nWantedBy=default.target\n"@,
{
    "[Unit]\nDescription=OneCipher wallet daemon (WC v2 wallet + signing engine)\nAfter=network-online.target\nWants=network-online.target\n\n[Service]\nExecStart=".to_owned().concat(
        exe,
    ).concat(
        " --daemon\nRestart=on-failure\nRestartSec=2\n\n[Install]\nWantedBy=default.target\n",
    )
}

/// What is asked of `systemctl --user`.
#[derive(Clone, Copy, Debug, PartialEq, Eq, Structural)]
pub enum Action {
    Reload,
    Enable,
    Disable,
}

/// The arguments of an action.
pub open spec fn action_args(a: Action) -> Seq<char> {
    match a {
        Action::Reload => "daemon-reload"@,
        Action::Enable => "enable --now onecipher.service"@,
        Action::Disable => "disable --now onecipher.service"@,
    }
}

/// An action in words, for where it could not be tried.
pub open spec fn action_words(a: Action) -> Seq<char> {
    match a {
        Action::Reload => "daemon-reload"@,
        Action::Enable => "enable/start the service"@,
        Action::Disable => "disable/stop the service"@,
    }
}

/// What came of an action.
#[derive(Debug)]
pub enum ActionResult {
    Success,
    /// It ran and failed with a status.
    Failure(String),
    /// `systemctl` is not there.
    Unavailable,
}

/// What is printed of an action: on standard output when it succeeded, and as
/// a warning otherwise.
#[derive(Debug)]
pub struct ActionReport {
    pub warning: bool,
    pub line: String,
}

/// What is printed of an action. Nothing that `systemctl` does fails the
/// command.
pub fn report(a: Action, r: &ActionResult) -> (p: ActionReport)
    ensures
        p.warning == !(r is Success),
        p.line@ == match *r {
            ActionResult::Success => "systemctl --user "@ + action_args(a) + ": ok"@,
            ActionResult::Failure(s) => "warning: systemctl --user "@ + action_args(a)
                + " exited with "@ + s@,
            ActionResult::Unavailable => "warning: 'systemctl' is not available — could not "@
                + action_words(a) + " the onecipher user service automatically"@,
        },
{
    let args = match a {
        Action::Reload => "daemon-reload",
        Action::Enable => "enable --now onecipher.service",
        Action::Disable => "disable --now onecipher.service",
    };
    let words = match a {
        Action::Reload => "daemon-reload",
        Action::Enable => "enable/start the service",
        Action::Disable => "disable/stop the service",
    };
    match r {
        ActionResult::Success => ActionReport {
            warning: false,
            line: "systemctl --user ".to_owned().concat(args).concat(": ok"),
        },
        ActionResult::Failure(s) => ActionReport {
            warning: true,
            line: "warning: systemctl --user ".to_owned().concat(args).concat(
                " exited with ",
            ).concat(s.as_str()),
        },
        ActionResult::Unavailable => ActionReport {
            warning: true,
            line: "warning: 'systemctl' is not available — could not ".to_owned().concat(
                words,
            ).concat(" the onecipher user service automatically"),
        },
    }
}

/// What `service install` prints of the written unit.
pub fn install(path: &str) -> (r: String)
    ensures
        r@ == "Wrote systemd user unit: "@ + path@,
{
    "Wrote systemd user unit: ".to_owned().concat(path)
}

/// What `service uninstall` prints of the unit, which is removed when it is
/// there.
pub fn uninstall(path: &str, present: bool) -> (r: String)
    ensures
        r@ == if present {
            "Removed systemd user unit: "@ + path@
        } else {
            "No unit file at "@ + path@ + " (already uninstalled)"@
        },
{
    if present {
        "Removed systemd user unit: ".to_owned().concat(path)
    } else {
        "No unit file at ".to_owned().concat(path).concat(" (already uninstalled)")
    }
}

/// What `service status` prints of the unit.
pub fn status(path: &str, present: bool) -> (r: String)
    ensures
        r@ == "Unit file: "@ + path@ + if present {
            " (present)"@
        } else {
            " (NOT installed)"@
        },
{
    let tail = if present {
        " (present)"
    } else {
        " (NOT installed)"
    };
    "Unit file: ".to_owned().concat(path).concat(tail)
}

/// Enabling starts the service and disabling stops it, both by its name; the unit
/// lies with those of the user.
pub proof fn law_actions_name_the_service(home: Seq<char>)
    ensures
        action_args(Action::Enable) == "enable --now onecipher.service"@,
        action_args(Action::Disable) == "disable --now onecipher.service"@,
        action_args(Action::Reload) == "daemon-reload"@,
        action_words(Action::Enable) == "enable/start the service"@,
        action_words(Action::Disable) == "disable/stop the service"@,
        action_words(Action::Reload) == "daemon-reload"@,
        user_dir(home) == child_path(child_path(child_path(home, ".config"@), "systemd"@), "user"@),
{
}

} // verus!
