//! `backup`: encrypted bundles of the wallets.
use vstd::prelude::*;

use crate::error::{invalid, invalid_args, CliError, CliErrorView};
use crate::text::{dec, decimal, opt_text, trim, trimmed};

verus! {

/// A bundle without a recipient could never be opened again.
pub fn check_recipients(recipients: &Vec<String>) -> (r: Result<(), CliError>)
    ensures
        match r {
            Ok(_) => recipients@.len() > 0,
            Err(e) => recipients@.len() == 0 && e@ == CliErrorView::InvalidArgs(
                "at least one --recipient <age1...> is required (the bundle decrypts only under a listed recipient identity)"@,
            ),
        },
{
    if recipients.len() == 0 {
        return Err(
            invalid(
                "at least one --recipient <age1...> is required (the bundle decrypts only under a listed recipient identity)",
            ),
        );
    }
    Ok(())
}

/// What is printed when a bundle was written.
pub fn export(count: usize, out: &str, recipients: usize) -> (r: String)
    ensures
        r@ == "backup exported "@ + decimal(count as int) + " wallet(s) to "@ + out@ + " (age, "@
            + decimal(recipients as int) + " recipient(s))"@,
{
    "backup exported ".to_owned().concat(dec(count as u128).as_str()).concat(
        " wallet(s) to ",
    ).concat(out).concat(" (age, ").concat(dec(recipients as u128).as_str()).concat(
        " recipient(s))",
    )
}

/// Where the identity that opens a bundle comes from.
#[derive(Debug)]
pub enum IdentitySource {
    /// The text of the flag.
    Flag(String),
    /// A hidden line on the terminal.
    Ask,
}

/// Where the identity that opens a bundle comes from; white space around it
/// does not count.
pub fn read_identity(flag: &Option<String>) -> (r: IdentitySource)
    ensures
        match r {
            IdentitySource::Flag(s) => opt_text(*flag) matches Some(f) && s@ == trim(f),
            IdentitySource::Ask => flag is None,
        },
{
    match flag {
        Some(f) => IdentitySource::Flag(trimmed(f.as_str())),
        None => IdentitySource::Ask,
    }
}

/// The refusal of an identity that cannot be read.
pub fn identity_error(from_flag: bool, message: &str) -> (e: CliError)
    ensures
        e@ == CliErrorView::InvalidArgs(
            (if from_flag {
                "invalid --identity: "@
            } else {
                "invalid backup identity: "@
            }) + message@,
        ),
{
    let what = if from_flag {
        "invalid --identity: "
    } else {
        "invalid backup identity: "
    };
    invalid_args(what.to_owned().concat(message))
}

/// What is printed when a bundle was read back.
pub fn import(count: usize, input: &str, generation: u64) -> (r: String)
    ensures
        r@ == "backup imported "@ + decimal(count as int) + " wallet(s) from "@ + input@
            + " (exported at unix "@ + decimal(generation as int) + ")"@,
{
    "backup imported ".to_owned().concat(dec(count as u128).as_str()).concat(
        " wallet(s) from ",
    ).concat(input).concat(" (exported at unix ").concat(dec(generation as u128).as_str()).concat(
        ")",
    )
}

} // verus!
