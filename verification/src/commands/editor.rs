//! Editing a secret in an external editor.
use vstd::prelude::*;

use crate::error::{invalid_args, CliError, CliErrorView};
use crate::text::{dec, decimal, opt_text, trim_end_of, trimmed_newlines};

verus! {

/// The editor: `$VISUAL`, or `$EDITOR`, or `vi`.
pub fn editor_command(visual: &Option<String>, editor: &Option<String>) -> (r: String)
    ensures
        r@ == match (opt_text(*visual), opt_text(*editor)) {
            (Some(v), _) => v,
            (None, Some(e)) => e,
            (None, None) => "vi"@,
        },
{
    match visual {
        Some(v) => v.clone(),
        None => match editor {
            Some(e) => e.clone(),
            None => "vi".to_owned(),
        },
    }
}

/// The editor has to succeed.
pub fn run_editor(editor: &str, success: bool, status: &str) -> (r: Result<(), CliError>)
    ensures
        match r {
            Ok(_) => success,
            Err(e) => !success && e@ == CliErrorView::InvalidArgs(
                "editor '"@ + editor@ + "' exited with "@ + status@,
            ),
        },
{
    if !success {
        return Err(
            invalid_args(
                "editor '".to_owned().concat(editor).concat("' exited with ").concat(status),
            ),
        );
    }
    Ok(())
}

/// The edited value: the file without trailing line breaks.
pub fn edit_secret(content: &str) -> (r: String)
    ensures
        r@ == trim_end_of(content@, seq!['\n', '\r']),
{
    trimmed_newlines(content)
}

/// The low 64 bits of the time in nanoseconds; zero before the epoch.
pub fn unique_suffix(nanos: Option<u128>) -> (r: u64)
    ensures
        r == match nanos {
            Some(n) => n as int % 0x1_0000_0000_0000_0000,
            None => 0int,
        },
{
    match nanos {
        Some(n) => (n % 0x1_0000_0000_0000_0000) as u64,
        None => 0,
    }
}

/// The name of the staging directory of a process.
pub fn staging_dir(pid: u32, suffix: u64) -> (r: String)
    ensures
        r@ == "onecipher-edit-"@ + decimal(pid as int) + "-"@ + decimal(suffix as int),
{
    "onecipher-edit-".to_owned().concat(dec(pid as u128).as_str()).concat("-").concat(
        dec(suffix as u128).as_str(),
    )
}

/// The most zeros that are written at once.
pub const ZERO_CHUNK: u64 = 0x10_0000;

/// How many zeros are written next over a file of which `remaining` bytes are
/// left.
pub fn zero_chunk(remaining: u64) -> (n: u64)
    ensures
        n == if remaining < ZERO_CHUNK {
            remaining
        } else {
            ZERO_CHUNK
        },
{
    if remaining < ZERO_CHUNK {
        remaining
    } else {
        ZERO_CHUNK
    }
}

/// How many bytes are left after `k` chunks.
pub open spec fn left_after(len: int, k: int) -> int
    decreases k,
{
    if k <= 0 {
        len
    } else {
        let r = left_after(len, k - 1);
        r - if r < ZERO_CHUNK {
            r
        } else {
            ZERO_CHUNK as int
        }
    }
}

/// Overwriting reaches every byte: after one chunk for each begun mebibyte
/// nothing is left.
pub proof fn law_zeros_cover_the_file(len: int, k: int)
    requires
        0 <= len,
        0 <= k,
    ensures
        left_after(len, k) == if len <= k * ZERO_CHUNK {
            0
        } else {
            len - k * ZERO_CHUNK
        },
    decreases k,
{
    if k > 0 {
        law_zeros_cover_the_file(len, k - 1);
        assert(k * ZERO_CHUNK == (k - 1) * ZERO_CHUNK + ZERO_CHUNK) by (nonlinear_arith);
    }
}

} // verus!
