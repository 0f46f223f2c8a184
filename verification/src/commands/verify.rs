//! `verify`: the check of an ECDSA signature over a message, typed data or a
//! hash.
use vstd::prelude::*;

use crate::codec::{hex_bytes, hex_decode, hex_fault, is_hex, strip_0x, without_0x};
use crate::commands::sign_in::FileRead;
use crate::error::{invalid, invalid_args, CliError, CliErrorView};
use crate::text::{clone_opt, opt_text};

verus! {

/// The arguments of a verification.
#[derive(Debug)]
pub struct VerifyInput {
    pub address: String,
    pub message: Option<String>,
    pub typed_data: Option<String>,
    pub typed_data_file: Option<FileRead>,
    pub hash: Option<String>,
    pub no_hash: bool,
    pub signature: String,
}

/// What is verified.
#[derive(Debug)]
pub enum Payload {
    /// The digest of typed data in JSON.
    TypedData(String),
    /// These bytes as a digest.
    Digest(Vec<u8>),
    /// These bytes as a message.
    Bytes(Vec<u8>),
    /// This text as a message.
    Text(String),
}

/// A [`Payload`] over sequences.
pub enum PayloadView {
    TypedData(Seq<char>),
    Digest(Seq<u8>),
    Bytes(Seq<u8>),
    Text(Seq<char>),
}

impl View for Payload {
    type V = PayloadView;

    open spec fn view(&self) -> PayloadView {
        match *self {
            Payload::TypedData(s) => PayloadView::TypedData(s@),
            Payload::Digest(b) => PayloadView::Digest(b@),
            Payload::Bytes(b) => PayloadView::Bytes(b@),
            Payload::Text(s) => PayloadView::Text(s@),
        }
    }
}

/// The typed data: the flag's, or the file's.
pub open spec fn typed_data_of(i: VerifyInput) -> Result<Option<Seq<char>>, CliErrorView> {
    match i.typed_data_file {
        None => Ok(opt_text(i.typed_data)),
        Some(f) => match f.content {
            Err(e) => Err(
                CliErrorView::InvalidArgs(
                    "cannot read typed-data file '"@ + f.path@ + "': "@ + e@,
                ),
            ),
            Ok(c) => match i.typed_data {
                Some(t) => Ok(Some(t@)),
                None => Ok(Some(c@)),
            },
        },
    }
}

/// What is verified: typed data before a hash before a message.
pub open spec fn payload_of(i: VerifyInput) -> Result<PayloadView, CliErrorView> {
    match typed_data_of(i) {
        Err(e) => Err(e),
        Ok(Some(t)) => Ok(PayloadView::TypedData(t)),
        Ok(None) => match i.hash {
            Some(h) => {
                let digits = without_0x(h@);
                if !is_hex(digits) {
                    Err(CliErrorView::InvalidArgs("invalid hash hex: "@ + hex_fault(digits)))
                } else if i.no_hash {
                    Ok(PayloadView::Digest(hex_bytes(digits)))
                } else {
                    Ok(PayloadView::Bytes(hex_bytes(digits)))
                }
            },
            None => match i.message {
                Some(m) => Ok(PayloadView::Text(m@)),
                None => Err(
                    CliErrorView::InvalidArgs(
                        "one of --message, --typed-data, --typed-data-file, or --hash is required"@,
                    ),
                ),
            },
        },
    }
}

fn read_payload(i: &VerifyInput) -> (r: Result<Payload, CliError>)
    ensures
        match r {
            Ok(p) => payload_of(*i) == Ok::<PayloadView, CliErrorView>(p@),
            Err(e) => payload_of(*i) == Err::<PayloadView, CliErrorView>(e@),
        },
{
    let typed = match &i.typed_data_file {
        None => clone_opt(&i.typed_data),
        Some(f) => match &f.content {
            Err(e) => {
                return Err(
                    invalid_args(
                        "cannot read typed-data file '".to_owned().concat(
                            f.path.as_str(),
                        ).concat("': ").concat(e.as_str()),
                    ),
                );
            },
            Ok(c) => match &i.typed_data {
                Some(t) => Some(t.clone()),
                None => Some(c.clone()),
            },
        },
    };
    match typed {
        Some(t) => return Ok(Payload::TypedData(t)),
        None => {},
    }
    match &i.hash {
        Some(h) => match hex_decode(strip_0x(h.as_str()).as_str()) {
            Err(e) => Err(invalid_args("invalid hash hex: ".to_owned().concat(e.as_str()))),
            Ok(b) => if i.no_hash {
                Ok(Payload::Digest(b))
            } else {
                Ok(Payload::Bytes(b))
            },
        },
        None => match &i.message {
            Some(m) => Ok(Payload::Text(m.clone())),
            None => Err(
                invalid("one of --message, --typed-data, --typed-data-file, or --hash is required"),
            ),
        },
    }
}

/// What a verification works on.
#[derive(Debug)]
pub struct Check {
    pub payload: Payload,
    pub signature: Vec<u8>,
}

/// What is verified against which signature. Only EVM chains are supported;
/// the signature is decoded before the payload is read.
pub fn run(evm: bool, input: &VerifyInput) -> (r: Result<Check, CliError>)
    ensures
        match r {
            Ok(c) => evm && is_hex(without_0x(input.signature@)) && c.signature@ == hex_bytes(
                without_0x(input.signature@),
            ) && payload_of(*input) == Ok::<PayloadView, CliErrorView>(c.payload@),
            Err(e) => if !evm {
                e@ == CliErrorView::InvalidArgs(
                    "verify is currently only supported for EVM chains"@,
                )
            } else if !is_hex(without_0x(input.signature@)) {
                e@ == CliErrorView::InvalidArgs(
                    "invalid signature hex: "@ + hex_fault(without_0x(input.signature@)),
                )
            } else {
                payload_of(*input) == Err::<PayloadView, CliErrorView>(e@)
            },
        },
{
    if !evm {
        return Err(invalid("verify is currently only supported for EVM chains"));
    }
    let signature = match hex_decode(strip_0x(input.signature.as_str()).as_str()) {
        Ok(b) => b,
        Err(e) => {
            return Err(invalid_args("invalid signature hex: ".to_owned().concat(e.as_str())));
        },
    };
    match read_payload(input) {
        Ok(payload) => Ok(Check { payload, signature }),
        Err(e) => Err(e),
    }
}

/// The line that is printed, and the error that an invalid signature is.
pub fn verdict(valid: bool) -> (r: (&'static str, Result<(), CliError>))
    ensures
        r.0@ == if valid {
            "Signature is valid."@
        } else {
            "Signature is INVALID."@
        },
        match r.1 {
            Ok(_) => valid,
            Err(e) => !valid && e@ == CliErrorView::InvalidArgs("signature verification failed"@),
        },
{
    if valid {
        ("Signature is valid.", Ok(()))
    } else {
        ("Signature is INVALID.", Err(invalid("signature verification failed")))
    }
}

/// What is verified: typed data before a hash, and a hash before a message; the
/// flag comes before the file. A hash is taken as a digest only when it is asked
/// not to be hashed.
pub proof fn law_payloads_come_in_order(i: VerifyInput)
    requires
        i.typed_data_file is None,
    ensures
        i.typed_data matches Some(t) ==> payload_of(i) == Ok::<PayloadView, CliErrorView>(
            PayloadView::TypedData(t@),
        ),
        i.typed_data is None && i.hash is Some && is_hex(without_0x(i.hash->0@)) ==> payload_of(i)
            == Ok::<PayloadView, CliErrorView>(
            if i.no_hash {
                PayloadView::Digest(hex_bytes(without_0x(i.hash->0@)))
            } else {
                PayloadView::Bytes(hex_bytes(without_0x(i.hash->0@)))
            },
        ),
        i.typed_data is None && i.hash is None ==> (payload_of(i) is Ok <==> i.message is Some),
        i.typed_data is None && i.hash is None && i.message is Some ==> payload_of(i) == Ok::<
            PayloadView,
            CliErrorView,
        >(PayloadView::Text(i.message->0@)),
        i.typed_data is None && i.hash is Some && !is_hex(without_0x(i.hash->0@)) ==> payload_of(
            i,
        ) is Err,
{
}

/// A file of typed data must be readable; its text is used unless typed data was
/// given with the flag.
pub proof fn law_typed_data_may_come_from_a_file(i: VerifyInput)
    requires
        i.typed_data_file is Some,
    ensures
        i.typed_data_file->0.content is Err ==> payload_of(i) is Err,
        i.typed_data_file->0.content matches Ok(c) ==> payload_of(i) == Ok::<
            PayloadView,
            CliErrorView,
        >(
            PayloadView::TypedData(
                if i.typed_data is Some {
                    i.typed_data->0@
                } else {
                    c@
                },
            ),
        ),
{
}

/// What is read of the value in a contract is the value itself, each part under its
/// own name.
pub proof fn law_payload_views_keep_each_value(x: Payload)
    ensures
        x matches Payload::TypedData(s) ==> x@ == PayloadView::TypedData(s@),
        x matches Payload::Digest(b) ==> x@ == PayloadView::Digest(b@),
        x matches Payload::Bytes(b) ==> x@ == PayloadView::Bytes(b@),
        x matches Payload::Text(s) ==> x@ == PayloadView::Text(s@),
{
}

} // verus!
