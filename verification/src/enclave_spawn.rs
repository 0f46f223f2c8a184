//! What passes between the program and its signing child.
use vstd::prelude::*;

use crate::codec::{
    hex_bytes, hex_decode, hex_encode, hex_fault, hex_text, is_hex, law_hex_round_trips,
};
use crate::text::{opt_text, starts_with};

verus! {

/// A passphrase as the child is given it.
pub fn passphrase_credential_hex(passphrase: &str) -> (r: String)
    ensures
        r@ == hex_text(vstd::utf8::encode_utf8(passphrase@)),
{
    hex_encode(passphrase.as_bytes())
}

/// The failure of a child: one that it reported carries its code, and any
/// other gets one. `shown` is the failure as text, and `message` what the child
/// said of it.
pub fn spawn_error(message: &str, shown: &str) -> (r: String)
    ensures
        r@ == if "E_"@.is_prefix_of(message@) {
            shown@
        } else {
            "E_INTERNAL: "@ + shown@
        },
{
    if starts_with(message, "E_") {
        shown.to_owned()
    } else {
        "E_INTERNAL: ".to_owned().concat(shown)
    }
}

/// The bytes of a field that an answer must have.
pub open spec fn field_bytes(field: Option<Seq<char>>, name: Seq<char>) -> Result<
    Seq<u8>,
    Seq<char>,
> {
    match field {
        None => Err("E_INTERNAL: enclave omitted "@ + name),
        Some(h) => if is_hex(h) {
            Ok(hex_bytes(h))
        } else {
            Err("E_INTERNAL: enclave bad "@ + name + " hex: "@ + hex_fault(h))
        },
    }
}

/// The bytes of a field that an answer must have.
pub fn response_hex(field: &Option<String>, name: &str) -> (r: Result<Vec<u8>, String>)
    ensures
        match r {
            Ok(b) => field_bytes(opt_text(*field), name@) == Ok::<Seq<u8>, Seq<char>>(b@),
            Err(m) => field_bytes(opt_text(*field), name@) == Err::<Seq<u8>, Seq<char>>(m@),
        },
{
    match field {
        None => Err("E_INTERNAL: enclave omitted ".to_owned().concat(name)),
        Some(h) => match hex_decode(h.as_str()) {
            Ok(b) => Ok(b),
            Err(e) => Err(
                "E_INTERNAL: enclave bad ".to_owned().concat(name).concat(" hex: ").concat(
                    e.as_str(),
                ),
            ),
        },
    }
}

/// A failure of the child as a caller may see it.
pub open spec fn sanitized(e: Seq<char>) -> Seq<char> {
    if "E_PARAM"@.is_prefix_of(e) {
        e
    } else {
        "internal error"@
    }
}

/// A failure of the child as a caller may see it: what is wrong with the
/// caller's own input is passed on, and nothing else.
pub fn sanitize_enclave_error(e: &str) -> (r: String)
    ensures
        r@ == sanitized(e@),
{
    if starts_with(e, "E_PARAM") {
        e.to_owned()
    } else {
        "internal error".to_owned()
    }
}

/// Nothing that the signer keeps to itself reaches a caller: two failures that
/// are not about the caller's input look the same.
pub proof fn law_internal_failures_look_alike(a: Seq<char>, b: Seq<char>)
    requires
        !"E_PARAM"@.is_prefix_of(a),
        !"E_PARAM"@.is_prefix_of(b),
    ensures
        sanitized(a) == sanitized(b),
{
}

/// A field of the answer is the bytes of its digits; one that is missing or no
/// digits is an internal failure.
pub proof fn law_fields_are_read_back(b: Seq<u8>, h: Seq<char>, name: Seq<char>)
    ensures
        field_bytes(Some(hex_text(b)), name) == Ok::<Seq<u8>, Seq<char>>(b),
        field_bytes(None, name) is Err,
        field_bytes(Some(h), name) is Ok <==> is_hex(h),
        "E_PARAM"@.is_prefix_of(h) ==> sanitized(h) == h,
{
    law_hex_round_trips(b);
}

} // verus!
