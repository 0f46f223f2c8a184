//! `pay x402`: payments through the network agent.
use vstd::prelude::*;

use crate::codec::{hex_encode, hex_text};
use crate::text::{dec_signed, opt_text, signed_decimal};

verus! {

/// How a payment ended.
#[derive(Debug)]
pub enum Outcome {
    Paid(Vec<u8>),
    Denied(String),
    Failed(String),
    /// With a status that is not known.
    Unknown(i32),
}

/// What is printed of a payment.
pub fn run(o: &Outcome) -> (r: String)
    ensures
        r@ == match *o {
            Outcome::Paid(receipt) => "payment OK; receipt: "@ + hex_text(receipt@),
            Outcome::Denied(reason) => "payment DENIED: "@ + reason@,
            Outcome::Failed(error) => "payment ERROR: "@ + error@,
            Outcome::Unknown(status) => "payment unknown status: "@ + signed_decimal(
                status as int,
            ),
        },
{
    match o {
        Outcome::Paid(receipt) => "payment OK; receipt: ".to_owned().concat(
            hex_encode(receipt.as_slice()).as_str(),
        ),
        Outcome::Denied(reason) => "payment DENIED: ".to_owned().concat(reason.as_str()),
        Outcome::Failed(error) => "payment ERROR: ".to_owned().concat(error.as_str()),
        Outcome::Unknown(status) => "payment unknown status: ".to_owned().concat(
            dec_signed(*status as i64).as_str(),
        ),
    }
}

/// The body of a request; none is an empty one.
pub fn body_bytes(body: &Option<String>) -> (r: Vec<u8>)
    ensures
        r@ == match opt_text(*body) {
            Some(b) => vstd::utf8::encode_utf8(b),
            None => Seq::empty(),
        },
{
    match body {
        Some(b) => b.as_str().as_bytes_vec(),
        None => Vec::new(),
    }
}

} // verus!
