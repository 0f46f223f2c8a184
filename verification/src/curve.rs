//! Keys and signatures, through `k256` and `ed25519_dalek`.
use vstd::prelude::*;

verus! {

/// The secp256k1 public key of a secret, in its short or long form, or what
/// `k256` says is wrong with the secret.
pub uninterp spec fn secp_public(secret: Seq<u8>, short: bool) -> Result<Seq<u8>, Seq<char>>;

/// The Ed25519 public key of a secret.
pub uninterp spec fn ed_public(secret: Seq<u8>) -> Seq<u8>;

/// The Ed25519 signature of a message.
pub uninterp spec fn ed_signature(secret: Seq<u8>, message: Seq<u8>) -> Seq<u8>;

/// `k256::ecdsa::SigningKey::from_slice`, then `to_sec1_point` of its verifying
/// key: 33 bytes in the short form and 65 in the long one, or the error's text.
#[verifier::external_body]
pub(crate) fn secp_public_key(secret: &[u8], short: bool) -> (r: Result<Vec<u8>, String>)
    ensures
        match r {
            Ok(k) => secp_public(secret@, short) == Ok::<Seq<u8>, Seq<char>>(k@) && k@.len()
                == if short {
                33nat
            } else {
                65nat
            },
            Err(e) => secp_public(secret@, short) == Err::<Seq<u8>, Seq<char>>(e@),
        },
{
    k256::ecdsa::SigningKey::from_slice(secret)
        .map(|k| k.verifying_key().to_sec1_point(short).as_bytes().to_vec())
        .map_err(|e| e.to_string())
}

/// `Generate::try_generate` for `k256::ecdsa::SigningKey`: a secret of 32
/// bytes that has a public key, or the text of the failure of the system's
/// source of randomness.
#[verifier::external_body]
pub(crate) fn fresh_secret() -> (r: Result<Vec<u8>, String>)
    ensures
        r matches Ok(s) ==> s@.len() == 32 && secp_public(s@, false) is Ok,
{
    <k256::ecdsa::SigningKey as k256::elliptic_curve::Generate>::try_generate()
        .map(|k| k.to_bytes().to_vec())
        .map_err(|e| e.to_string())
}

/// `ed25519_dalek::SigningKey::from_bytes`, then its `verifying_key`: 32 bytes.
#[verifier::external_body]
pub(crate) fn ed_public_key(secret: &[u8]) -> (r: Vec<u8>)
    requires
        secret@.len() == 32,
    ensures
        r@ == ed_public(secret@),
        r@.len() == 32,
{
    let mut bytes = [0u8; 32];
    bytes.copy_from_slice(secret);
    ed25519_dalek::SigningKey::from_bytes(&bytes).verifying_key().to_bytes().to_vec()
}

/// `ed25519_dalek::SigningKey::from_bytes`, then `Signer::sign`: 64 bytes.
#[verifier::external_body]
pub(crate) fn ed_sign(secret: &[u8], message: &[u8]) -> (r: Vec<u8>)
    requires
        secret@.len() == 32,
    ensures
        r@ == ed_signature(secret@, message@),
        r@.len() == 64,
{
    let mut bytes = [0u8; 32];
    bytes.copy_from_slice(secret);
    let key = ed25519_dalek::SigningKey::from_bytes(&bytes);
    ed25519_dalek::Signer::sign(&key, message).to_bytes().to_vec()
}

} // verus!
