//! `password`: shortcuts over the secret store for passwords.
use vstd::prelude::*;

use crate::commands::secret::{disclosure, render_disclosure, Disclosure, DisclosureView, OpenedSecret};
use crate::commands::{no_metadata, MetadataView, SecretMetadata};
use crate::error::{invalid_args, CliError, CliErrorView};

verus! {

/// The metadata of a new password: where it is used, and by whom.
pub fn add_metadata(url: &str, username: &str) -> (m: SecretMetadata)
    ensures
        m@ == (MetadataView { url: Some(url@), username: Some(username@), ..no_metadata() }),
{
    let none = SecretMetadata::default();
    SecretMetadata {
        url: Some(url.to_owned()),
        username: Some(username.to_owned()),
        chain: none.chain,
        issuer: none.issuer,
        account: none.account,
        tags: none.tags,
    }
}

/// Where a new password comes from.
#[derive(Clone, Copy, Debug, PartialEq, Eq, Structural)]
pub enum PasswordSource {
    /// Generated, with the given length.
    Generate { length: usize, symbols: bool },
    /// From the environment, or typed.
    Read,
}

/// Where a new password comes from.
pub fn add_source(generate: bool, length: usize, symbols: bool) -> (r: PasswordSource)
    ensures
        r == if generate {
            PasswordSource::Generate { length, symbols }
        } else {
            PasswordSource::Read
        },
{
    if generate {
        PasswordSource::Generate { length, symbols }
    } else {
        PasswordSource::Read
    }
}

/// What is printed when a password was added.
pub fn added_message(name: &str) -> (r: String)
    ensures
        r@ == "Password added: "@ + name@,
{
    "Password added: ".to_owned().concat(name)
}

/// What `password get` does with an item. JSON goes before copying.
pub fn get(item: &OpenedSecret, copy: bool, json: bool) -> (d: Disclosure)
    ensures
        d@ == if json {
            DisclosureView::Envelope
        } else if copy {
            DisclosureView::Copy(item.payload.secret@)
        } else {
            DisclosureView::Print(
                disclosure(item.name@, item.item_type@, item.kind@, item.payload@),
            )
        },
{
    if json {
        return Disclosure::Envelope;
    }
    if copy {
        return Disclosure::Copy(item.payload.secret.clone());
    }
    Disclosure::Print(
        render_disclosure(
            item.name.as_str(),
            item.item_type.as_str(),
            item.kind.as_str(),
            &item.payload,
        ),
    )
}

/// The refusal of a generator that does not exist.
pub fn unknown_generator(generator: &str) -> (e: CliError)
    ensures
        e@ == CliErrorView::InvalidArgs(
            "unknown generator '"@ + generator@ + "'; expected: cryptic, memorable, xkcd"@,
        ),
{
    invalid_args(
        "unknown generator '".to_owned().concat(generator).concat(
            "'; expected: cryptic, memorable, xkcd",
        ),
    )
}

/// What is done with a generated password: drawn, or printed bare.
pub fn generate(password: &str, qr: bool) -> (d: Disclosure)
    ensures
        d@ == if qr {
            DisclosureView::Qr(password@)
        } else {
            DisclosureView::Print(password@ + "\n"@)
        },
{
    if qr {
        Disclosure::Qr(password.to_owned())
    } else {
        Disclosure::Print(password.to_owned().concat("\n"))
    }
}

} // verus!
