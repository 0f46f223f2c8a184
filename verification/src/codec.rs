//! Encodings of bytes as text, through `hex`, `base64` and `bs58`.
use vstd::prelude::*;

use crate::json::hex_char;

verus! {

// ---------------------------------------------------------------------------
// Hexadecimal
// ---------------------------------------------------------------------------

/// The value of a hexadecimal digit.
pub open spec fn hex_digit(c: char) -> Option<int> {
    if '0' <= c && c <= '9' {
        Some(c as int - 48)
    } else if 'a' <= c && c <= 'f' {
        Some(c as int - 87)
    } else if 'A' <= c && c <= 'F' {
        Some(c as int - 55)
    } else {
        None
    }
}

/// An even number of hexadecimal digits.
pub open spec fn is_hex(s: Seq<char>) -> bool {
    s.len() % 2 == 0 && forall|i: int| 0 <= i < s.len() ==> hex_digit(#[trigger] s[i]) is Some
}

/// The bytes that hexadecimal digits stand for, two digits a byte.
pub open spec fn hex_bytes(s: Seq<char>) -> Seq<u8> {
    Seq::new(
        s.len() / 2,
        |i: int| (hex_digit(s[2 * i])->0 * 16 + hex_digit(s[2 * i + 1])->0) as u8,
    )
}

/// Bytes in hexadecimal, in lower case.
pub open spec fn hex_text(b: Seq<u8>) -> Seq<char> {
    Seq::new(
        b.len() * 2,
        |i: int|
            hex_char(
                if i % 2 == 0 {
                    b[i / 2] as int / 16
                } else {
                    b[i / 2] as int % 16
                },
            ),
    )
}

/// What `hex` says is wrong with `s`.
pub uninterp spec fn hex_fault(s: Seq<char>) -> Seq<char>;

/// `hex::decode`: the bytes, when `s` is an even number of hexadecimal digits
/// in either case, and the error's text otherwise.
#[verifier::external_body]
pub(crate) fn hex_decode(s: &str) -> (r: Result<Vec<u8>, String>)
    ensures
        match r {
            Ok(b) => is_hex(s@) && b@ == hex_bytes(s@),
            Err(e) => !is_hex(s@) && e@ == hex_fault(s@),
        },
{
    hex::decode(s).map_err(|e| e.to_string())
}

/// `hex::encode`: two digits a byte, in lower case.
#[verifier::external_body]
pub(crate) fn hex_encode(b: &[u8]) -> (r: String)
    ensures
        r@ == hex_text(b@),
{
    hex::encode(b)
}

/// `hex::encode_upper`: two digits a byte, in upper case.
#[verifier::external_body]
pub(crate) fn hex_encode_upper(b: &[u8]) -> (r: String)
    ensures
        r@ == crate::text::ascii_upper(hex_text(b@)),
{
    hex::encode_upper(b)
}

/// `s` without a leading `0x`.
pub open spec fn without_0x(s: Seq<char>) -> Seq<char> {
    match crate::text::strip_prefix(s, "0x"@) {
        Some(t) => t,
        None => s,
    }
}

/// `s` without a leading `0x`.
pub fn strip_0x(s: &str) -> (r: String)
    ensures
        r@ == without_0x(s@),
{
    match crate::text::without_prefix(s, "0x") {
        Some(t) => t,
        None => s.to_owned(),
    }
}

/// Decoding the hexadecimal text of bytes gives the bytes back.
pub proof fn law_hex_round_trips(b: Seq<u8>)
    ensures
        is_hex(hex_text(b)),
        hex_bytes(hex_text(b)) == b,
{
    let s = hex_text(b);
    assert forall|i: int| 0 <= i < s.len() implies hex_digit(#[trigger] s[i]) is Some by {}
    assert forall|i: int| 0 <= i < b.len() implies #[trigger] hex_bytes(s)[i] == b[i] by {
        assert((2 * i) / 2 == i && (2 * i + 1) / 2 == i);
        assert(s[2 * i] == hex_char(b[i] as int / 16));
        assert(s[2 * i + 1] == hex_char(b[i] as int % 16));
    }
    assert(hex_bytes(s) =~= b);
}

// ---------------------------------------------------------------------------
// Base64
// ---------------------------------------------------------------------------

/// Bytes in standard base64, padded.
pub uninterp spec fn base64_text(b: Seq<u8>) -> Seq<char>;

/// The bytes that a text is the standard base64 of, or what `base64` says is
/// wrong with the text.
pub uninterp spec fn base64_bytes(s: Seq<char>) -> Result<Seq<u8>, Seq<char>>;

/// `encode` of `base64`'s `STANDARD` engine; decoding the text gives the bytes
/// back.
#[verifier::external_body]
pub(crate) fn base64_encode(b: &[u8]) -> (r: String)
    ensures
        r@ == base64_text(b@),
        base64_bytes(r@) is Ok && base64_bytes(r@)->Ok_0 == b@,
{
    base64::Engine::encode(&base64::engine::general_purpose::STANDARD, b)
}

/// `decode` of `base64`'s `STANDARD` engine: the bytes, or the error's text.
#[verifier::external_body]
pub(crate) fn base64_decode(s: &str) -> (r: Result<Vec<u8>, String>)
    ensures
        match r {
            Ok(b) => base64_bytes(s@) == Ok::<Seq<u8>, Seq<char>>(b@),
            Err(e) => base64_bytes(s@) == Err::<Seq<u8>, Seq<char>>(e@),
        },
{
    base64::Engine::decode(&base64::engine::general_purpose::STANDARD, s).map_err(|e| e.to_string())
}

// ---------------------------------------------------------------------------
// Base58
// ---------------------------------------------------------------------------

/// The bytes that a text is the base58 of, or what `bs58` says is wrong with
/// the text.
pub uninterp spec fn base58_bytes(s: Seq<char>) -> Result<Seq<u8>, Seq<char>>;

/// `bs58::decode(..).into_vec()`: the bytes, or the error's text.
#[verifier::external_body]
pub(crate) fn base58_decode(s: &str) -> (r: Result<Vec<u8>, String>)
    ensures
        match r {
            Ok(b) => base58_bytes(s@) == Ok::<Seq<u8>, Seq<char>>(b@),
            Err(e) => base58_bytes(s@) == Err::<Seq<u8>, Seq<char>>(e@),
        },
{
    bs58::decode(s).into_vec().map_err(|e| e.to_string())
}

/// Digits may have `0x` before them, which is taken off once.
pub proof fn law_prefixes_are_taken_off_once(s: Seq<char>)
    ensures
        without_0x("0x"@ + s) == s,
        !"0x"@.is_prefix_of(s) ==> without_0x(s) == s,
{
    crate::text::law_ends_are_taken_off(s, "0x"@);
}

} // verus!
