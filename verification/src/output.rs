//! Gates on interactivity and on destructive actions.
//!
//! In JSON mode a command emits exactly one JSON object and must not wait for
//! a person, so interactive commands are refused. Destructive commands ask for
//! an explicit flag.
use vstd::prelude::*;

use crate::error::{invalid_args, CliError, CliErrorView};

verus! {

/// JSON mode is on whenever `ONECIPHER_JSON_ERRORS` is set, to any value.
pub fn is_json_mode(json_errors: &Option<String>) -> (r: bool)
    ensures
        r == (json_errors is Some),
{
    json_errors.is_some()
}

/// The refusal of an interactive command in JSON mode.
pub open spec fn interactive_refusal(cmd: Seq<char>) -> CliErrorView {
    CliErrorView::InvalidArgs(
        "'"@ + cmd + "' is interactive and cannot run with ONECIPHER_JSON_ERRORS=1"@,
    )
}

/// Refuses the interactive command `cmd` in JSON mode.
pub fn reject_interactive_if_json(json_mode: bool, cmd: &str) -> (r: Result<(), CliError>)
    ensures
        match r {
            Ok(()) => !json_mode,
            Err(e) => json_mode && e@ == interactive_refusal(cmd@),
        },
{
    if json_mode {
        return Err(
            invalid_args(
                "'".to_owned().concat(cmd).concat(
                    "' is interactive and cannot run with ONECIPHER_JSON_ERRORS=1",
                ),
            ),
        );
    }
    Ok(())
}

/// The refusal of a destructive action whose flag is missing.
pub open spec fn gate_refusal(action: Seq<char>, flag: Seq<char>) -> CliErrorView {
    CliErrorView::InvalidArgs(
        "refusing to "@ + action + " without "@ + flag + " (destructive action)"@,
    )
}

fn gate(open: bool, action: &str, flag: &str) -> (r: Result<(), CliError>)
    ensures
        match r {
            Ok(()) => open,
            Err(e) => !open && e@ == gate_refusal(action@, flag@),
        },
{
    if open {
        Ok(())
    } else {
        Err(
            invalid_args(
                "refusing to ".to_owned().concat(action).concat(" without ").concat(flag).concat(
                    " (destructive action)",
                ),
            ),
        )
    }
}

/// Requires `--force` before a destructive action.
pub fn require_force(force: bool, action: &str) -> (r: Result<(), CliError>)
    ensures
        match r {
            Ok(()) => force,
            Err(e) => !force && e@ == gate_refusal(action@, "--force"@),
        },
{
    gate(force, action, "--force")
}

/// Requires `--confirm` before a destructive action.
pub fn require_confirm(confirm: bool, action: &str) -> (r: Result<(), CliError>)
    ensures
        match r {
            Ok(()) => confirm,
            Err(e) => !confirm && e@ == gate_refusal(action@, "--confirm"@),
        },
{
    gate(confirm, action, "--confirm")
}

/// A refusal names the command, or what was to be done and the flag that allows it.
pub proof fn law_refusals_name_what_is_refused(cmd: Seq<char>, action: Seq<char>, flag: Seq<char>)
    ensures
        interactive_refusal(cmd) == CliErrorView::InvalidArgs(
            "'"@ + cmd + "' is interactive and cannot run with ONECIPHER_JSON_ERRORS=1"@,
        ),
        gate_refusal(action, flag) == CliErrorView::InvalidArgs(
            "refusing to "@ + action + " without "@ + flag + " (destructive action)"@,
        ),
{
}

} // verus!
