//! `sign message`.
use vstd::prelude::*;

use crate::codec::{
    hex_bytes, hex_decode, hex_encode, hex_fault, hex_text, is_hex, law_hex_round_trips,
};
use crate::commands::wc::bytes_result;
use crate::error::{invalid, invalid_args, CliError, CliErrorView};
use crate::json::{
    empty_object, json_is_null, json_members, json_of, null, setting_value, with_member, Setting,
    SettingView,
};
use crate::text::{contains, contains_text, opt_text, same};
use crate::commands::sbom::at;

verus! {

/// The bytes of a message in its encoding.
pub open spec fn message_bytes(message: Seq<char>, encoding: Seq<char>) -> Result<
    Seq<u8>,
    CliErrorView,
> {
    if encoding == "utf8"@ {
        Ok(vstd::utf8::encode_utf8(message))
    } else if encoding == "hex"@ {
        if is_hex(message) {
            Ok(hex_bytes(message))
        } else {
            Err(CliErrorView::InvalidArgs("invalid hex message: "@ + hex_fault(message)))
        }
    } else {
        Err(
            CliErrorView::InvalidArgs(
                "unsupported encoding: "@ + encoding + " (use 'utf8' or 'hex')"@,
            ),
        )
    }
}

/// The bytes of a message in its encoding.
pub fn encode_message(message: &str, encoding: &str) -> (r: Result<Vec<u8>, CliError>)
    ensures
        bytes_result(r) == message_bytes(message@, encoding@),
{
    if same(encoding, "utf8") {
        return Ok(message.as_bytes_vec());
    }
    if same(encoding, "hex") {
        return match hex_decode(message) {
            Ok(b) => Ok(b),
            Err(e) => Err(invalid_args("invalid hex message: ".to_owned().concat(e.as_str()))),
        };
    }
    Err(
        invalid_args(
            "unsupported encoding: ".to_owned().concat(encoding).concat(" (use 'utf8' or 'hex')"),
        ),
    )
}

/// A message or typed data has to be there.
pub fn check_input(message: &Option<String>, typed_data: &Option<String>) -> (r: Result<
    (),
    CliError,
>)
    ensures
        match r {
            Ok(_) => message is Some || typed_data is Some,
            Err(e) => message is None && typed_data is None && e@ == CliErrorView::InvalidArgs(
                "a --message (or --typed-data) is required"@,
            ),
        },
{
    if typed_data.is_none() && message.is_none() {
        return Err(invalid("a --message (or --typed-data) is required"));
    }
    Ok(())
}

/// Who signs.
#[derive(Clone, Copy, Debug, PartialEq, Eq, Structural)]
pub enum Signer {
    /// The wallet library, under the policies of an API token.
    Library,
    /// A child process that decrypts, signs and forgets.
    Enclave,
    /// This process.
    Local,
}

/// Who signs: a token always goes through the policies.
pub fn choose_signer(token: bool, enclave: bool) -> (s: Signer)
    ensures
        s == if token {
            Signer::Library
        } else if enclave {
            Signer::Enclave
        } else {
            Signer::Local
        },
{
    if token {
        Signer::Library
    } else if enclave {
        Signer::Enclave
    } else {
        Signer::Local
    }
}

/// What is signed.
#[derive(Debug)]
pub enum Payload {
    /// EIP-712 typed data.
    TypedData(String),
    /// The bytes of a message.
    Message(Vec<u8>),
}

/// [`Payload`] with its content as sequences.
pub enum PayloadView {
    TypedData(Seq<char>),
    Message(Seq<u8>),
}

impl View for Payload {
    type V = PayloadView;

    open spec fn view(&self) -> PayloadView {
        match *self {
            Payload::TypedData(s) => PayloadView::TypedData(s@),
            Payload::Message(b) => PayloadView::Message(b@),
        }
    }
}

/// What is signed: typed data, on an EVM chain only, or else the message.
pub open spec fn payload_of(
    message: Option<Seq<char>>,
    encoding: Seq<char>,
    typed_data: Option<Seq<char>>,
    evm: bool,
) -> Result<PayloadView, CliErrorView> {
    match typed_data {
        Some(td) => if evm {
            Ok(PayloadView::TypedData(td))
        } else {
            Err(CliErrorView::InvalidArgs("--typed-data is only supported for EVM chains"@))
        },
        None => match message_bytes(
            match message {
                Some(m) => m,
                None => Seq::empty(),
            },
            encoding,
        ) {
            Ok(b) => Ok(PayloadView::Message(b)),
            Err(e) => Err(e),
        },
    }
}

/// What is signed.
pub fn payload(
    message: &Option<String>,
    encoding: &str,
    typed_data: &Option<String>,
    evm: bool,
) -> (r: Result<Payload, CliError>)
    ensures
        match r {
            Ok(p) => payload_of(opt_text(*message), encoding@, opt_text(*typed_data), evm) == Ok::<
                PayloadView,
                CliErrorView,
            >(p@),
            Err(e) => payload_of(opt_text(*message), encoding@, opt_text(*typed_data), evm)
                == Err::<PayloadView, CliErrorView>(e@),
        },
{
    if let Some(td) = typed_data {
        if !evm {
            return Err(invalid("--typed-data is only supported for EVM chains"));
        }
        return Ok(Payload::TypedData(td.clone()));
    }
    let encoded = match message {
        Some(m) => encode_message(m.as_str(), encoding),
        None => encode_message(String::new().as_str(), encoding),
    };
    match encoded {
        Ok(b) => Ok(Payload::Message(b)),
        Err(e) => Err(e),
    }
}

/// The request to the signing child: the payload in hexadecimal, or the typed
/// data.
#[derive(Debug)]
pub struct EnclaveInput {
    pub typed: bool,
    pub payload_hex: String,
    pub extra_json: String,
}

/// The request to the signing child.
pub fn enclave_input(p: &Payload) -> (r: EnclaveInput)
    ensures
        match p@ {
            PayloadView::TypedData(td) => r.typed && r.payload_hex@.len() == 0 && r.extra_json@
                == td,
            PayloadView::Message(b) => !r.typed && r.payload_hex@ == hex_text(b)
                && r.extra_json@.len() == 0,
        },
{
    match p {
        Payload::TypedData(td) => EnclaveInput {
            typed: true,
            payload_hex: String::new(),
            extra_json: td.clone(),
        },
        Payload::Message(b) => EnclaveInput {
            typed: false,
            payload_hex: hex_encode(b.as_slice()),
            extra_json: String::new(),
        },
    }
}

/// What follows a failure of the signing child.
#[derive(Debug)]
pub enum AfterFailure {
    /// Ask for the passphrase and try once more.
    AskAgain,
    Fail(CliError),
}

/// What follows a failure of the signing child: the passphrase is asked for
/// once, when it was wrong and somebody can answer.
pub fn after_failure(message: &str, retried: bool, interactive: bool) -> (r: AfterFailure)
    ensures
        match r {
            AfterFailure::AskAgain => contains_text(message@, "E_DECRYPT"@) && !retried
                && interactive,
            AfterFailure::Fail(e) => !(contains_text(message@, "E_DECRYPT"@) && !retried
                && interactive) && e@ == CliErrorView::KeyAgent(message@),
        },
{
    if contains(message, "E_DECRYPT") && !retried && interactive {
        return AfterFailure::AskAgain;
    }
    AfterFailure::Fail(CliError::KeyAgent(message.to_owned()))
}

/// `v` shows a signature; without a recovery number that is `null`.
pub open spec fn is_signature_document(
    v: serde_json::Value,
    signature: Seq<char>,
    recovery_id: Option<u8>,
) -> bool {
    &&& json_members(v) matches Some(m)
    &&& m.dom() == set!["signature"@, "recovery_id"@]
    &&& m["signature"@] == json_of(SettingView::Text(signature))
    &&& match recovery_id {
        Some(n) => m["recovery_id"@] == json_of(SettingView::Number(n as u64)),
        None => json_is_null(m["recovery_id"@]),
    }
}

/// The document that shows a signature.
pub fn signature_document(signature: &str, recovery_id: Option<u8>) -> (v: serde_json::Value)
    ensures
        is_signature_document(v, signature@, recovery_id),
{
    let recovery = match recovery_id {
        Some(n) => setting_value(Setting::Number(n as u64)),
        None => null(),
    };
    let doc = with_member(
        empty_object(),
        "signature",
        setting_value(Setting::Text(signature.to_owned())),
    );
    let doc = with_member(doc, "recovery_id", recovery);
    proof {
        reveal_strlit("signature");
        reveal_strlit("recovery_id");
        assert("signature"@[0] == 's');
        assert("recovery_id"@[0] == 'r');
        assert(json_members(doc)->0.dom() =~= set!["signature"@, "recovery_id"@]);
    }
    doc
}

/// A message in hexadecimal is signed as the bytes that it stands for, one in
/// UTF-8 as its own bytes; no other encoding is accepted.
pub proof fn law_messages_are_signed_as_their_bytes(b: Seq<u8>, m: Seq<char>, encoding: Seq<char>)
    ensures
        message_bytes(hex_text(b), "hex"@) == Ok::<Seq<u8>, CliErrorView>(b),
        message_bytes(m, "utf8"@) == Ok::<Seq<u8>, CliErrorView>(vstd::utf8::encode_utf8(m)),
        encoding != "hex"@ && encoding != "utf8"@ ==> message_bytes(m, encoding) is Err,
        message_bytes(m, "hex"@) is Ok <==> is_hex(m),
{
    law_hex_round_trips(b);
    reveal_strlit("hex");
    reveal_strlit("utf8");
    assert("hex"@.len() == 3 && "hex"@[0] == 'h' && "utf8"@.len() == 4 && "utf8"@[0] == 'u');
}

/// Typed data is signed as it is, on EVM chains only, and comes before a
/// message; without it the message is signed, the empty one when there is none.
pub proof fn law_typed_data_comes_first(
    message: Option<Seq<char>>,
    encoding: Seq<char>,
    typed_data: Option<Seq<char>>,
    evm: bool,
)
    ensures
        typed_data is Some ==> (payload_of(message, encoding, typed_data, evm) is Ok <==> evm),
        typed_data is Some && evm ==> payload_of(message, encoding, typed_data, evm) == Ok::<
            PayloadView,
            CliErrorView,
        >(PayloadView::TypedData(typed_data->0)),
        typed_data is None && message is Some ==> (payload_of(message, encoding, typed_data, evm)
            matches Ok(p) ==> (p matches PayloadView::Message(b) && message_bytes(
            message->0,
            encoding,
        ) == Ok::<Seq<u8>, CliErrorView>(b))),
        typed_data is None && message is Some ==> (payload_of(
            message,
            encoding,
            typed_data,
            evm,
        ) is Ok <==> message_bytes(message->0, encoding) is Ok),
{
}

/// The document of a signature shows it, and its recovery number or nothing.
pub proof fn law_signature_documents_show_the_signature(
    v: serde_json::Value,
    signature: Seq<char>,
    recovery_id: Option<u8>,
)
    requires
        is_signature_document(v, signature, recovery_id),
    ensures
        at(v, "signature"@) == Some(json_of(SettingView::Text(signature))),
        recovery_id matches Some(n) ==> at(v, "recovery_id"@) == Some(
            json_of(SettingView::Number(n as u64)),
        ),
        recovery_id is None ==> (at(v, "recovery_id"@) matches Some(x) && json_is_null(x)),
{
}

/// What is read of the value in a contract is the value itself, each part under its
/// own name.
pub proof fn law_payload_views_keep_each_value(x: Payload)
    ensures
        x matches Payload::TypedData(s) ==> x@ == PayloadView::TypedData(s@),
        x matches Payload::Message(b) ==> x@ == PayloadView::Message(b@),
{
}

/// A signature stands under `signature`, and what recovers the key under `recovery_id`,
/// which is null when there is nothing.
pub proof fn law_signature_documents(v: serde_json::Value, signature: Seq<char>, recovery_id: Option<u8>)
    requires
        is_signature_document(v, signature, recovery_id),
    ensures
        json_members(v) matches Some(m) && m["signature"@] == json_of(SettingView::Text(signature))
            && m.contains_key("signature"@) && m.contains_key("recovery_id"@) && (
        recovery_id is None ==> json_is_null(m["recovery_id"@])) && (recovery_id matches Some(n)
            ==> m["recovery_id"@] == json_of(SettingView::Number(n as u64))),
{
}

} // verus!
