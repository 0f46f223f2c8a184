//! `session-key`: keys that agents sign with for a while.
use vstd::prelude::*;

use crate::codec::{hex_bytes, hex_decode, hex_fault, is_hex};
use crate::error::{invalid_args, CliError, CliErrorView};
use crate::text::{dec_signed, lemma_shows, shows, signed_decimal, texts};

verus! {

/// The authorization of a passkey.
#[derive(Debug)]
pub struct PasskeyAuthorization {
    pub challenge: Vec<u8>,
    pub signature: Vec<u8>,
    pub credential_id: String,
}

/// The refusal of a text that is no hexadecimal.
pub open spec fn hex_refusal(what: Seq<char>, s: Seq<char>) -> CliErrorView {
    CliErrorView::InvalidArgs("invalid "@ + what + " hex: "@ + hex_fault(s))
}

/// The authorization of a passkey, from hexadecimal; the challenge is looked
/// at first.
pub fn authorization(challenge_hex: &str, signature_hex: &str, credential_id: &str) -> (r: Result<
    PasskeyAuthorization,
    CliError,
>)
    ensures
        match r {
            Ok(a) => is_hex(challenge_hex@) && is_hex(signature_hex@) && a.challenge@ == hex_bytes(
                challenge_hex@,
            ) && a.signature@ == hex_bytes(signature_hex@) && a.credential_id@ == credential_id@,
            Err(e) => if !is_hex(challenge_hex@) {
                e@ == hex_refusal("challenge"@, challenge_hex@)
            } else {
                !is_hex(signature_hex@) && e@ == hex_refusal("signature"@, signature_hex@)
            },
        },
{
    let challenge = match hex_decode(challenge_hex) {
        Ok(b) => b,
        Err(e) => {
            return Err(
                invalid_args(
                    "invalid ".to_owned().concat("challenge").concat(" hex: ").concat(e.as_str()),
                ),
            );
        },
    };
    let signature = match hex_decode(signature_hex) {
        Ok(b) => b,
        Err(e) => {
            return Err(
                invalid_args(
                    "invalid ".to_owned().concat("signature").concat(" hex: ").concat(e.as_str()),
                ),
            );
        },
    };
    Ok(PasskeyAuthorization { challenge, signature, credential_id: credential_id.to_owned() })
}

/// What is printed when a key was created.
pub fn create(session_key_id: &str) -> (r: String)
    ensures
        r@ == "session key created: "@ + session_key_id@,
{
    "session key created: ".to_owned().concat(session_key_id)
}

/// What is printed when a key was revoked.
pub fn revoke(session_key_id: &str) -> (r: String)
    ensures
        r@ == "session key revoked: "@ + session_key_id@,
{
    "session key revoked: ".to_owned().concat(session_key_id)
}

/// The name of a status; one that is not known is shown as its number.
pub open spec fn status_name(status: i32) -> Seq<char> {
    if status == 0 {
        "ACTIVE"@
    } else if status == 1 {
        "REVOKED"@
    } else if status == 2 {
        "EXPIRED"@
    } else {
        signed_decimal(status as int)
    }
}

/// The name of a status; one that is not known is shown as its number.
pub fn session_key_status_name(status: i32) -> (r: String)
    ensures
        r@ == status_name(status),
{
    if status == 0 {
        "ACTIVE".to_owned()
    } else if status == 1 {
        "REVOKED".to_owned()
    } else if status == 2 {
        "EXPIRED".to_owned()
    } else {
        dec_signed(status as i64)
    }
}

/// A key in the list.
#[derive(Debug)]
pub struct SessionKeyInfo {
    pub session_key_id: String,
    pub label: String,
    pub status: i32,
}

/// The keys as they are listed.
pub open spec fn key_lines(v: Seq<SessionKeyInfo>) -> Seq<Seq<char>> {
    Seq::new(
        v.len(),
        |i: int|
            v[i].session_key_id@ + ": "@ + v[i].label@ + " ("@ + status_name(v[i].status) + ")"@,
    )
}

/// What `session-key list` prints.
pub fn list(keys: &Vec<SessionKeyInfo>) -> (r: Vec<String>)
    ensures
        texts(r@) == if keys@.len() == 0 {
            seq!["(no session keys)"@]
        } else {
            key_lines(keys@)
        },
{
    let mut out: Vec<String> = Vec::new();
    if keys.len() == 0 {
        out.push("(no session keys)".to_owned());
        assert(texts(out@) =~= seq!["(no session keys)"@]);
        return out;
    }
    let mut i: usize = 0;
    while i < keys.len()
        invariant
            i <= keys@.len(),
            texts(out@) =~= key_lines(keys@).take(i as int),
        decreases keys@.len() - i,
    {
        let k = &keys[i];
        let ghost before = out@;
        out.push(
            k.session_key_id.clone().concat(": ").concat(k.label.as_str()).concat(" (").concat(
                session_key_status_name(k.status).as_str(),
            ).concat(")"),
        );
        assert(texts(out@) =~= texts(before).push(key_lines(keys@)[i as int]));
        i = i + 1;
    }
    assert(key_lines(keys@).take(i as int) =~= key_lines(keys@));
    out
}

/// Each known status has its own word; any other is shown as its number.
pub proof fn law_statuses_have_their_words(status: i32)
    ensures
        status_name(0) == "ACTIVE"@,
        status_name(1) == "REVOKED"@,
        status_name(2) == "EXPIRED"@,
        status < 0 || status > 2 ==> status_name(status) == signed_decimal(status as int),
        "ACTIVE"@ != "REVOKED"@,
        "ACTIVE"@ != "EXPIRED"@,
        "REVOKED"@ != "EXPIRED"@,
{
    reveal_strlit("ACTIVE");
    reveal_strlit("REVOKED");
    reveal_strlit("EXPIRED");
    assert("ACTIVE"@[0] == 'A' && "REVOKED"@[0] == 'R' && "EXPIRED"@[0] == 'E');
}

/// A session key is shown by its identifier, its label and its state.
pub proof fn law_session_keys_are_shown(v: Seq<SessionKeyInfo>, i: int)
    requires
        0 <= i < v.len(),
    ensures
        key_lines(v).len() == v.len(),
        v[i].session_key_id@.is_prefix_of(key_lines(v)[i]),
        shows(key_lines(v)[i], ": "@, v[i].label@),
        (" ("@ + status_name(v[i].status) + ")"@).is_suffix_of(key_lines(v)[i]),
{
    let k = v[i];
    let t = key_lines(v)[i];
    assert(t.take(k.session_key_id@.len() as int) =~= k.session_key_id@);
    let e = " ("@ + status_name(k.status) + ")"@;
    assert(t.subrange(t.len() - e.len(), t.len() as int) =~= e);
    lemma_shows(k.session_key_id@, ": "@, k.label@, e);
    assert(t =~= k.session_key_id@ + ": "@ + k.label@ + e);
}

} // verus!
