//! `sign auth`: EIP-7702 authorizations.
use vstd::prelude::*;

use crate::codec::{hex_encode, hex_text};
use crate::error::{invalid, invalid_args, CliError, CliErrorView};
use crate::json::{
    empty_object, json_members, json_of, setting_value, with_member, Setting, SettingView,
};
use crate::text::{strip_prefix, without_prefix};

verus! {

/// The number of an EVM chain.
pub open spec fn auth_chain(chain_id: Seq<char>, evm: bool) -> Result<Seq<char>, CliErrorView> {
    if !evm {
        Err(
            CliErrorView::InvalidArgs(
                "EIP-7702 authorization signing is only supported for EVM chains"@,
            ),
        )
    } else {
        match strip_prefix(chain_id, "eip155:"@) {
            Some(n) => Ok(n),
            None => Err(
                CliErrorView::InvalidArgs(
                    "EVM chain '"@ + chain_id + "' is missing an eip155 reference"@,
                ),
            ),
        }
    }
}

/// The number of an EVM chain, as text.
pub fn auth_chain_id(chain_id: &str, evm: bool) -> (r: Result<String, CliError>)
    ensures
        crate::commands::text_result(r) == auth_chain(chain_id@, evm),
{
    if !evm {
        return Err(invalid("EIP-7702 authorization signing is only supported for EVM chains"));
    }
    match without_prefix(chain_id, "eip155:") {
        Some(n) => Ok(n),
        None => Err(
            invalid_args(
                "EVM chain '".to_owned().concat(chain_id).concat(
                    "' is missing an eip155 reference",
                ),
            ),
        ),
    }
}

/// A signature whose last byte counts from 27, as EIP-7702 wants it.
pub open spec fn with_v(sig: Seq<u8>) -> Seq<u8> {
    if sig.len() == 65 && sig[64] < 27 {
        sig.update(64, (sig[64] + 27) as u8)
    } else {
        sig
    }
}

/// A signature whose last byte counts from 27.
pub fn normalize(sig: Vec<u8>) -> (r: Vec<u8>)
    ensures
        r@ == with_v(sig@),
{
    let mut sig = sig;
    if sig.len() == 65 {
        let v: u8 = sig[64];
        if v < 27 {
            sig.set(64, v + 27);
        }
    }
    sig
}

/// The members of the document that shows an authorization.
pub open spec fn auth_members(
    chain_id: Seq<char>,
    delegate: Seq<char>,
    nonce: Seq<char>,
    signature: Seq<u8>,
    digest: Seq<u8>,
) -> Map<Seq<char>, serde_json::Value> {
    Map::<Seq<char>, serde_json::Value>::empty().insert(
        "chain_id"@,
        json_of(SettingView::Text(chain_id)),
    ).insert("delegate"@, json_of(SettingView::Text(delegate))).insert(
        "nonce"@,
        json_of(SettingView::Text(nonce)),
    ).insert("signature"@, json_of(SettingView::Text("0x"@ + hex_text(signature)))).insert(
        "authorization_hash"@,
        json_of(SettingView::Text("0x"@ + hex_text(digest))),
    )
}

/// The document that shows an authorization.
pub fn auth_document(
    chain_id: &str,
    delegate: &str,
    nonce: &str,
    signature: &Vec<u8>,
    digest: &Vec<u8>,
) -> (v: serde_json::Value)
    ensures
        json_members(v) == Some(
            auth_members(chain_id@, delegate@, nonce@, signature@, digest@),
        ),
{
    let doc = empty_object();
    let doc = with_member(doc, "chain_id", setting_value(Setting::Text(chain_id.to_owned())));
    let doc = with_member(doc, "delegate", setting_value(Setting::Text(delegate.to_owned())));
    let doc = with_member(doc, "nonce", setting_value(Setting::Text(nonce.to_owned())));
    let doc = with_member(
        doc,
        "signature",
        setting_value(
            Setting::Text("0x".to_owned().concat(hex_encode(signature.as_slice()).as_str())),
        ),
    );
    with_member(
        doc,
        "authorization_hash",
        setting_value(
            Setting::Text("0x".to_owned().concat(hex_encode(digest.as_slice()).as_str())),
        ),
    )
}

/// Normalizing twice is normalizing once.
pub proof fn law_normalizing_is_idempotent(sig: Seq<u8>)
    ensures
        with_v(with_v(sig)) == with_v(sig),
{
}

/// The last byte of a signature is 27 or 28 where it was 0 or 1, and nothing
/// else changes.
pub proof fn law_normalizing_changes_the_last_byte_only(sig: Seq<u8>, i: int)
    requires
        0 <= i < sig.len(),
    ensures
        with_v(sig).len() == sig.len(),
        i != 64 || sig.len() != 65 ==> with_v(sig)[i] == sig[i],
        sig.len() == 65 && sig[64] == 0 ==> with_v(sig)[64] == 27,
        sig.len() == 65 && sig[64] == 1 ==> with_v(sig)[64] == 28,
        sig.len() == 65 && sig[64] >= 27 ==> with_v(sig) == sig,
        sig.len() == 65 ==> with_v(sig)[64] >= 27,
{
}

/// The chain of an authorization is the reference of an `eip155` chain.
pub proof fn law_authorizations_are_for_evm_chains(reference: Seq<char>, chain_id: Seq<char>)
    ensures
        auth_chain("eip155:"@ + reference, true) == Ok::<Seq<char>, CliErrorView>(reference),
        auth_chain(chain_id, false) is Err,
        auth_chain(chain_id, true) is Ok <==> "eip155:"@.is_prefix_of(chain_id),
{
    let s = "eip155:"@ + reference;
    assert("eip155:"@.is_prefix_of(s));
    assert(s.skip("eip155:"@.len() as int) =~= reference);
}

/// The document of an authorization shows each value under its own name.
pub proof fn law_authorization_documents_show_each_value(
    chain_id: Seq<char>,
    delegate: Seq<char>,
    nonce: Seq<char>,
    signature: Seq<u8>,
    digest: Seq<u8>,
)
    ensures
        ({
            let m = auth_members(chain_id, delegate, nonce, signature, digest);
            &&& m.dom() == set![
                "chain_id"@,
                "delegate"@,
                "nonce"@,
                "signature"@,
                "authorization_hash"@,
            ]
            &&& m["chain_id"@] == json_of(SettingView::Text(chain_id))
            &&& m["delegate"@] == json_of(SettingView::Text(delegate))
            &&& m["nonce"@] == json_of(SettingView::Text(nonce))
            &&& m["signature"@] == json_of(SettingView::Text("0x"@ + hex_text(signature)))
            &&& m["authorization_hash"@] == json_of(SettingView::Text("0x"@ + hex_text(digest)))
        }),
{
    reveal_strlit("chain_id");
    reveal_strlit("delegate");
    reveal_strlit("nonce");
    reveal_strlit("signature");
    reveal_strlit("authorization_hash");
    assert("chain_id"@.len() == 8 && "chain_id"@[0] == 'c' && "delegate"@.len() == 8
        && "delegate"@[0] == 'd' && "nonce"@.len() == 5 && "nonce"@[0] == 'n'
        && "signature"@.len() == 9 && "signature"@[0] == 's' && "authorization_hash"@.len() == 18
        && "authorization_hash"@[0] == 'a');
    assert(auth_members(chain_id, delegate, nonce, signature, digest).dom() =~= set![
        "chain_id"@,
        "delegate"@,
        "nonce"@,
        "signature"@,
        "authorization_hash"@,
    ]);
}

} // verus!
