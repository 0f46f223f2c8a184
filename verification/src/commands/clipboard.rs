//! Copying to the clipboard, and clearing it again.
use vstd::prelude::*;

use crate::commands::text_result;
use crate::error::{invalid, CliError, CliErrorView};
use crate::text::{chars_of, dec, decimal, same, text_range};

verus! {

/// What follows a copy: a message, and when the clipboard is looked at again.
#[derive(Debug)]
pub struct CopyPlan {
    pub message: String,
    pub clear_after: Option<u64>,
}

/// What follows a copy. A timeout of zero never clears.
pub fn copy_and_clear(timeout_secs: u64) -> (r: CopyPlan)
    ensures
        timeout_secs == 0 ==> r.clear_after is None && r.message@
            == "Copied to clipboard. Auto-clear disabled."@,
        timeout_secs > 0 ==> r.clear_after == Some(timeout_secs) && r.message@
            == "Copied to clipboard. Will clear in "@ + decimal(timeout_secs as int)
            + " seconds."@,
{
    if timeout_secs == 0 {
        return CopyPlan {
            message: "Copied to clipboard. Auto-clear disabled.".to_owned(),
            clear_after: None,
        };
    }
    CopyPlan {
        message: "Copied to clipboard. Will clear in ".to_owned().concat(
            dec(timeout_secs as u128).as_str(),
        ).concat(" seconds."),
        clear_after: Some(timeout_secs),
    }
}

/// Whether the clipboard is cleared: only when it still holds what was copied,
/// so that nothing else is lost. A clipboard that cannot be read is left alone.
pub fn may_clear(current: &Option<String>, copied: &str) -> (r: bool)
    ensures
        r == (current matches Some(c) && c@ == copied@),
{
    match current {
        Some(c) => same(c.as_str(), copied),
        None => false,
    }
}

/// `s` without a line break at its end.
pub open spec fn without_newline(s: Seq<char>) -> Seq<char> {
    if s.len() > 0 && s.last() == '\n' {
        if s.len() > 1 && s[s.len() - 2] == '\r' {
            s.take(s.len() - 2)
        } else {
            s.take(s.len() - 1)
        }
    } else {
        s
    }
}

/// The value that came in through a pipe: without one trailing line break, not
/// empty, and without NUL.
pub fn read_value_from_stdin(input: &str) -> (r: Result<String, CliError>)
    ensures
        text_result(r) == {
            let value = without_newline(input@);
            if value.len() == 0 {
                Err(CliErrorView::InvalidArgs("no value on stdin"@))
            } else if value.contains('\0') {
                Err(CliErrorView::InvalidArgs("binary input rejected"@))
            } else {
                Ok(value)
            }
        },
{
    let v = chars_of(input);
    let n: usize = v.len();
    let end: usize = if n > 0 && v[n - 1] == '\n' {
        if n > 1 && v[n - 2] == '\r' {
            n - 2
        } else {
            n - 1
        }
    } else {
        n
    };
    let ghost value = without_newline(input@);
    assert(v@.subrange(0, end as int) =~= value);
    if end == 0 {
        return Err(invalid("no value on stdin"));
    }
    let mut i: usize = 0;
    while i < end
        invariant
            i <= end <= v@.len(),
            value == v@.subrange(0, end as int),
            value == without_newline(input@),
            value.len() > 0,
            forall|k: int| 0 <= k < i ==> value[k] != '\0',
        decreases end - i,
    {
        if v[i] == '\0' {
            assert(value[i as int] == '\0');
            return Err(invalid("binary input rejected"));
        }
        i = i + 1;
    }
    Ok(text_range(&v, 0, end))
}

/// One line break at the end is taken off, in either form, and nothing else.
pub proof fn law_one_line_break_is_taken_off(s: Seq<char>)
    ensures
        s.len() == 0 || s.last() != '\r' ==> without_newline(s.push('\n')) == s,
        without_newline(s.push('\r').push('\n')) == s,
        s.len() == 0 || s.last() != '\n' ==> without_newline(s) == s,
        without_newline(s).is_prefix_of(s),
{
    assert(s.push('\n').take(s.len() as int) =~= s);
    assert(s.push('\r').push('\n').take(s.len() as int) =~= s);
}

} // verus!
