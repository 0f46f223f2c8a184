//! `sign tx`: signing here, or by a wallet over WalletConnect.
use vstd::prelude::*;

use crate::codec::{hex_bytes, hex_decode, hex_fault, is_hex, strip_0x, without_0x};
use crate::commands::sbom::{at, text_at};
use crate::commands::wc::bytes_result;
use crate::error::{invalid, invalid_args, CliError, CliErrorView};
use crate::json::{
    empty_object, json_members, json_of, json_uint, member, setting_value, text_value, uint_value,
    with_member, Setting, SettingView,
};

verus! {

/// The bytes of a transaction, from hexadecimal with or without `0x`.
pub fn tx_bytes(tx_hex: &str) -> (r: Result<Vec<u8>, CliError>)
    ensures
        bytes_result(r) == if is_hex(without_0x(tx_hex@)) {
            Ok(hex_bytes(without_0x(tx_hex@)))
        } else {
            Err(
                CliErrorView::InvalidArgs(
                    "invalid hex transaction: "@ + hex_fault(without_0x(tx_hex@)),
                ),
            )
        },
{
    match hex_decode(strip_0x(tx_hex).as_str()) {
        Ok(b) => Ok(b),
        Err(e) => Err(invalid_args("invalid hex transaction: ".to_owned().concat(e.as_str()))),
    }
}

/// Signing by a wallet needs a pairing.
pub fn check_pairing(present: bool) -> (r: Result<(), CliError>)
    ensures
        match r {
            Ok(_) => present,
            Err(e) => !present && e@ == CliErrorView::InvalidArgs(
                "no WalletConnect pairing found; run `onecipher wc connect <uri>` first"@,
            ),
        },
{
    if !present {
        return Err(
            invalid("no WalletConnect pairing found; run `onecipher wc connect <uri>` first"),
        );
    }
    Ok(())
}

/// The parameters of the request to the wallet.
pub fn wc_params(tx_hex: &str) -> (v: serde_json::Value)
    ensures
        json_members(v) == Some(
            Map::<Seq<char>, serde_json::Value>::empty().insert(
                "tx"@,
                json_of(SettingView::Text(tx_hex@)),
            ),
        ),
{
    with_member(empty_object(), "tx", setting_value(Setting::Text(tx_hex.to_owned())))
}

/// A signature of the wallet.
#[derive(Debug)]
pub struct WcSignature {
    pub signature: String,
    pub recovery_id: Option<u8>,
}

/// The recovery number of an answer: its low eight bits.
pub open spec fn recovery_of(v: serde_json::Value) -> Option<int> {
    match at(v, "recovery_id"@) {
        Some(x) => match json_uint(x) {
            Some(n) => Some(n as int % 256),
            None => None,
        },
        None => None,
    }
}

/// The signature in an answer of the wallet.
pub fn wc_signature(answer: &serde_json::Value) -> (r: Result<WcSignature, CliError>)
    ensures
        match text_at(*answer, "signature"@) {
            Some(s) => r matches Ok(w) && w.signature@ == s && match w.recovery_id {
                Some(n) => recovery_of(*answer) == Some(n as int),
                None => recovery_of(*answer) is None,
            },
            None => r matches Err(e) && e@ == CliErrorView::InvalidArgs(
                "WC response missing signature"@,
            ),
        },
{
    let signature: Option<String> = match member(answer, "signature") {
        Some(x) => text_value(&x),
        None => None,
    };
    let recovery: Option<u64> = match member(answer, "recovery_id") {
        Some(x) => uint_value(&x),
        None => None,
    };
    match signature {
        None => Err(invalid("WC response missing signature")),
        Some(s) => {
            let recovery_id: Option<u8> = match recovery {
                Some(n) => Some((n % 256) as u8),
                None => None,
            };
            Ok(WcSignature { signature: s, recovery_id })
        },
    }
}

/// A recovery number that fits a byte is taken as it is.
pub proof fn law_recovery_numbers_are_kept(v: serde_json::Value)
    ensures
        recovery_of(v) matches Some(n) ==> 0 <= n < 256,
        (at(v, "recovery_id"@) matches Some(x) && (json_uint(x) matches Some(n) && n < 256))
            ==> recovery_of(v) == Some(json_uint(at(v, "recovery_id"@)->0)->0 as int),
        recovery_of(v) is None <==> at(v, "recovery_id"@) is None || json_uint(
            at(v, "recovery_id"@)->0,
        ) is None,
{
}

} // verus!
