//! `mnemonic derive`: addresses of a mnemonic.
use vstd::prelude::*;

use crate::codec::{hex_encode, hex_text};
use crate::error::{invalid, CliError, CliErrorView};
use crate::text::{dec, decimal, opt_text};

verus! {

/// Where a key is derived.
#[derive(Debug)]
pub enum Place {
    /// At a path of one's own.
    Path(String),
    /// At the usual path of the chain, with an index.
    Index(u32),
}

/// One derivation, and the number that its line begins with.
#[derive(Debug)]
pub struct Derivation {
    pub place: Place,
    pub label: Option<u32>,
}

/// `d` is the derivation number `i` of `n`.
pub open spec fn is_derivation(d: Derivation, index: int, path: Option<Seq<char>>, n: int, i: int) -> bool {
    &&& match path {
        Some(p) => d.place matches Place::Path(q) && q@ == p,
        None => d.place matches Place::Index(k) && k == index + i,
    }
    &&& if n > 1 {
        d.label matches Some(k) && k == index + i
    } else {
        d.label is None
    }
}

/// The derivations on one chain: as many as asked for, one if not asked, from
/// `index` on. A path of one's own stands for one address only.
pub fn plan(index: u32, path: &Option<String>, count: Option<u32>) -> (r: Result<
    Vec<Derivation>,
    CliError,
>)
    requires
        path is None ==> index + (match count {
            Some(n) => n as int,
            None => 1,
        }) <= u32::MAX + 1,
    ensures
        ({
            let n = match count {
                Some(n) => n as int,
                None => 1,
            };
            match r {
                Ok(v) => (path is Some ==> n <= 1) && v@.len() == n && forall|i: int|
                    0 <= i < n ==> is_derivation(
                        #[trigger] v@[i],
                        index as int,
                        opt_text(*path),
                        n,
                        i,
                    ),
                Err(e) => path is Some && n > 1 && e@ == CliErrorView::InvalidArgs(
                    "--count is not supported with --path (use --path with different values instead)"@,
                ),
            }
        }),
{
    let n: u32 = match count {
        Some(n) => n,
        None => 1,
    };
    let mut out: Vec<Derivation> = Vec::new();
    let mut i: u32 = 0;
    while i < n
        invariant
            i <= n,
            n == (match count {
                Some(n) => n,
                None => 1u32,
            }),
            out@.len() == i,
            path is None ==> index + n <= u32::MAX + 1,
            i > 0 ==> (path is Some ==> n <= 1),
            forall|k: int|
                0 <= k < i ==> is_derivation(
                    #[trigger] out@[k],
                    index as int,
                    opt_text(*path),
                    n as int,
                    k,
                ),
        decreases n - i,
    {
        match path {
            Some(p) => {
                if n > 1 {
                    return Err(
                        invalid(
                            "--count is not supported with --path (use --path with different values instead)",
                        ),
                    );
                }
                out.push(Derivation { place: Place::Path(p.clone()), label: None });
            },
            None => {
                let label: Option<u32> = if n > 1 {
                    Some(index + i)
                } else {
                    None
                };
                out.push(Derivation { place: Place::Index(index + i), label });
            },
        }
        i = i + 1;
    }
    Ok(out)
}

/// The private key at the end of a line, if it is shown.
pub open spec fn key_suffix(key: Option<Seq<u8>>) -> Seq<char> {
    match key {
        Some(k) => "  "@ + hex_text(k),
        None => Seq::empty(),
    }
}

/// A key over its bytes.
pub open spec fn opt_bytes(key: Option<Vec<u8>>) -> Option<Seq<u8>> {
    match key {
        Some(k) => Some(k@),
        None => None,
    }
}

fn show_key_suffix(key: &Option<Vec<u8>>) -> (r: String)
    ensures
        r@ == key_suffix(opt_bytes(*key)),
{
    match key {
        Some(k) => "  ".to_owned().concat(hex_encode(k.as_slice()).as_str()),
        None => String::new(),
    }
}

/// The line of an address on one chain. The private key is shown only when it
/// was asked for.
pub fn address_line(label: Option<u32>, address: &str, key: &Option<Vec<u8>>) -> (r: String)
    ensures
        r@ == (match label {
            Some(n) => "["@ + decimal(n as int) + "] "@,
            None => Seq::empty(),
        }) + address@ + key_suffix(opt_bytes(*key)),
{
    let head = match label {
        Some(n) => "[".to_owned().concat(dec(n as u128).as_str()).concat("] "),
        None => String::new(),
    };
    head.concat(address).concat(show_key_suffix(key).as_str())
}

/// The line of an address on one of all chains.
pub fn chain_line(chain_id: &str, address: &str, key: &Option<Vec<u8>>) -> (r: String)
    ensures
        r@ == chain_id@ + " → "@ + address@ + key_suffix(opt_bytes(*key)),
{
    chain_id.to_owned().concat(" → ").concat(address).concat(show_key_suffix(key).as_str())
}

/// Accounts are derived one after the other from the index on: the first at the
/// index itself, each next one at the next index, and labelled with it when there
/// are more than one.
pub proof fn law_indices_are_consecutive(d: Derivation, e: Derivation, index: int, n: int, i: int)
    requires
        is_derivation(d, index, None, n, i),
        is_derivation(e, index, None, n, i + 1),
    ensures
        (d.place matches Place::Index(a) && e.place matches Place::Index(b) && b == a + 1),
        i == 0 ==> (d.place matches Place::Index(a) && a == index),
        n > 1 ==> (d.label matches Some(a) && d.place == Place::Index(a)),
        n <= 1 ==> d.label is None,
{
}

/// A path of one's own is used as it is.
pub proof fn law_paths_are_used_as_they_are(d: Derivation, index: int, path: Seq<char>, n: int, i: int)
    requires
        is_derivation(d, index, Some(path), n, i),
    ensures
        d.place matches Place::Path(p) && p@ == path,
{
}

/// The key behind an address is shown only when there is one.
pub proof fn law_keys_are_shown_on_request(k: Seq<u8>)
    ensures
        key_suffix(None).len() == 0,
        hex_text(k).is_suffix_of(key_suffix(Some(k))),
        key_suffix(Some(k)).len() > 2 * k.len(),
{
    reveal_strlit("  ");
    let s = key_suffix(Some(k));
    assert(s.subrange(s.len() - hex_text(k).len(), s.len() as int) =~= hex_text(k));
}

} // verus!
