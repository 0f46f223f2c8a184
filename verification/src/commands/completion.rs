//! `completion`: the refusal of a shell that is not supported.
use vstd::prelude::*;

use crate::error::{invalid_args, CliError, CliErrorView};

verus! {

/// The refusal of a shell.
pub fn unsupported_shell(shell: &str) -> (e: CliError)
    ensures
        e@ == CliErrorView::InvalidArgs(
            "unsupported shell: "@ + shell@ + " (expected: bash, zsh, fish, powershell, elvish)"@,
        ),
{
    invalid_args(
        "unsupported shell: ".to_owned().concat(shell).concat(
            " (expected: bash, zsh, fish, powershell, elvish)",
        ),
    )
}

} // verus!
