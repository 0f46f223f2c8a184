//! Exit statuses of the program, after BSD `sysexits(3)`.
//!
//! Scripts read the process status beside the stable error code, so every
//! error code has a fixed status: usage errors, wrong data, missing inputs,
//! internal failures, outputs that cannot be created, and denied permissions
//! can be told apart without reading the message.
use vstd::prelude::*;

use crate::text::same;

verus! {

/// Command-line usage error (bad flags, missing required argument).
pub const EX_USAGE: i32 = 64;

/// Input data incorrect (bad mnemonic, bad chain, malformed JSON payload).
pub const EX_DATAERR: i32 = 65;

/// Cannot open input (unknown wallet, secret, or API key).
pub const EX_NOINPUT: i32 = 66;

/// Internal software error (vault, signer, daemon, or network failure).
pub const EX_SOFTWARE: i32 = 70;

/// Cannot create output (name already taken, file not writable).
pub const EX_CANTCREAT: i32 = 73;

/// Permission denied (policy denial, expired key, wrong passphrase).
pub const EX_NOPERM: i32 = 77;

/// The caller supplied well-formed but incorrect data.
pub open spec fn is_data_code(code: Seq<char>) -> bool {
    ||| code == "INVALID_INPUT"@
    ||| code == "CAIP_PARSE_ERROR"@
    ||| code == "CHAIN_NOT_SUPPORTED"@
    ||| code == "MNEMONIC_ERROR"@
    ||| code == "HD_ERROR"@
    ||| code == "JSON_ERROR"@
    ||| code == "AMBIGUOUS_WALLET"@
}

/// The named input does not exist.
pub open spec fn is_missing_code(code: Seq<char>) -> bool {
    ||| code == "WALLET_NOT_FOUND"@
    ||| code == "API_KEY_NOT_FOUND"@
    ||| code == "SECRET_STORE_ERROR"@
}

/// The operation is not permitted.
pub open spec fn is_denied_code(code: Seq<char>) -> bool {
    ||| code == "POLICY_DENIED"@
    ||| code == "API_KEY_EXPIRED"@
    ||| code == "INVALID_PASSPHRASE"@
}

/// The status of an error code; a code that is in none of the classes is an
/// internal failure.
pub open spec fn status_of(code: Seq<char>) -> i32 {
    if code == "INVALID_ARGS"@ {
        EX_USAGE
    } else if is_data_code(code) {
        EX_DATAERR
    } else if is_missing_code(code) {
        EX_NOINPUT
    } else if code == "WALLET_NAME_EXISTS"@ {
        EX_CANTCREAT
    } else if is_denied_code(code) {
        EX_NOPERM
    } else {
        EX_SOFTWARE
    }
}

/// One of the statuses the program can end with after an error.
pub open spec fn is_status(status: i32) -> bool {
    ||| status == EX_USAGE
    ||| status == EX_DATAERR
    ||| status == EX_NOINPUT
    ||| status == EX_SOFTWARE
    ||| status == EX_CANTCREAT
    ||| status == EX_NOPERM
}

/// The status of a stable error code.
pub fn exit_code_for(code: &str) -> (r: i32)
    ensures
        r == status_of(code@),
{
    if same(code, "INVALID_ARGS") {
        EX_USAGE
    } else if same(code, "INVALID_INPUT") || same(code, "CAIP_PARSE_ERROR") || same(
        code,
        "CHAIN_NOT_SUPPORTED",
    ) || same(code, "MNEMONIC_ERROR") || same(code, "HD_ERROR") || same(code, "JSON_ERROR") || same(
        code,
        "AMBIGUOUS_WALLET",
    ) {
        EX_DATAERR
    } else if same(code, "WALLET_NOT_FOUND") || same(code, "API_KEY_NOT_FOUND") || same(
        code,
        "SECRET_STORE_ERROR",
    ) {
        EX_NOINPUT
    } else if same(code, "WALLET_NAME_EXISTS") {
        EX_CANTCREAT
    } else if same(code, "POLICY_DENIED") || same(code, "API_KEY_EXPIRED") || same(
        code,
        "INVALID_PASSPHRASE",
    ) {
        EX_NOPERM
    } else {
        EX_SOFTWARE
    }
}

/// Every error code has one of the published statuses, and a code outside the
/// published classes fails closed to the internal-failure status.
pub proof fn law_statuses_are_closed(code: Seq<char>)
    ensures
        is_status(status_of(code)),
        code != "INVALID_ARGS"@ && !is_data_code(code) && !is_missing_code(code) && code
            != "WALLET_NAME_EXISTS"@ && !is_denied_code(code) ==> status_of(code) == EX_SOFTWARE,
{
}

/// The statuses are those of the system's convention, and each belongs to the codes of
/// its class and to no others.
pub proof fn law_statuses_belong_to_their_codes(code: Seq<char>)
    ensures
        status_of(code) == 64 <==> code == "INVALID_ARGS"@,
        status_of(code) == 65 <==> code == "INVALID_INPUT"@
            || code == "CAIP_PARSE_ERROR"@
            || code == "CHAIN_NOT_SUPPORTED"@
            || code == "MNEMONIC_ERROR"@
            || code == "HD_ERROR"@
            || code == "JSON_ERROR"@
            || code == "AMBIGUOUS_WALLET"@,
        status_of(code) == 66 <==> code == "WALLET_NOT_FOUND"@
            || code == "API_KEY_NOT_FOUND"@
            || code == "SECRET_STORE_ERROR"@,
        status_of(code) == 73 <==> code == "WALLET_NAME_EXISTS"@,
        status_of(code) == 77 <==> code == "POLICY_DENIED"@
            || code == "API_KEY_EXPIRED"@
            || code == "INVALID_PASSPHRASE"@,
        status_of(code) == 70 <==> status_of(code) != 64 && status_of(code) != 65 && status_of(code)
            != 66 && status_of(code) != 73 && status_of(code) != 77,
{
    reveal_strlit("INVALID_ARGS");
    reveal_strlit("INVALID_INPUT");
    reveal_strlit("CAIP_PARSE_ERROR");
    reveal_strlit("CHAIN_NOT_SUPPORTED");
    reveal_strlit("MNEMONIC_ERROR");
    reveal_strlit("HD_ERROR");
    reveal_strlit("JSON_ERROR");
    reveal_strlit("AMBIGUOUS_WALLET");
    reveal_strlit("WALLET_NOT_FOUND");
    reveal_strlit("API_KEY_NOT_FOUND");
    reveal_strlit("SECRET_STORE_ERROR");
    reveal_strlit("POLICY_DENIED");
    reveal_strlit("API_KEY_EXPIRED");
    reveal_strlit("INVALID_PASSPHRASE");
    reveal_strlit("WALLET_NAME_EXISTS");
    assert("INVALID_ARGS"@.len() == 12 && "INVALID_ARGS"@[0] == 'I');
    assert("INVALID_INPUT"@.len() == 13 && "INVALID_INPUT"@[0] == 'I');
    assert("CAIP_PARSE_ERROR"@.len() == 16 && "CAIP_PARSE_ERROR"@[0] == 'C');
    assert("CHAIN_NOT_SUPPORTED"@.len() == 19 && "CHAIN_NOT_SUPPORTED"@[0] == 'C');
    assert("MNEMONIC_ERROR"@.len() == 14 && "MNEMONIC_ERROR"@[0] == 'M');
    assert("HD_ERROR"@.len() == 8 && "HD_ERROR"@[0] == 'H');
    assert("JSON_ERROR"@.len() == 10 && "JSON_ERROR"@[0] == 'J');
    assert("AMBIGUOUS_WALLET"@.len() == 16 && "AMBIGUOUS_WALLET"@[0] == 'A');
    assert("WALLET_NOT_FOUND"@.len() == 16 && "WALLET_NOT_FOUND"@[0] == 'W');
    assert("API_KEY_NOT_FOUND"@.len() == 17 && "API_KEY_NOT_FOUND"@[0] == 'A');
    assert("SECRET_STORE_ERROR"@.len() == 18 && "SECRET_STORE_ERROR"@[0] == 'S');
    assert("POLICY_DENIED"@.len() == 13 && "POLICY_DENIED"@[0] == 'P');
    assert("API_KEY_EXPIRED"@.len() == 15 && "API_KEY_EXPIRED"@[0] == 'A');
    assert("INVALID_PASSPHRASE"@.len() == 18 && "INVALID_PASSPHRASE"@[0] == 'I');
    assert("WALLET_NAME_EXISTS"@.len() == 18 && "WALLET_NAME_EXISTS"@[0] == 'W');
}

} // verus!
