//! `pay`: requests that cost something.
use vstd::prelude::*;

use crate::text::{
    cut, dec, decimal, index_or_len, law_sides_are_cut_apart, lemma_index_or_len, lemma_shows,
    opt_text, pad_left, pad_right, padded_left, padded_right, same, shows, split, starts_with,
    texts,
};

verus! {

/// The namespace of a chain.
pub open spec fn namespace(chain_id: Seq<char>) -> Seq<char> {
    split(chain_id, ':')[0]
}

/// The namespace of a chain.
pub fn namespace_of(chain_id: &str) -> (r: String)
    ensures
        r@ == namespace(chain_id@),
{
    let parts = cut(chain_id, ':');
    assert(texts(parts@)[0] == parts@[0]@);
    parts[0].clone()
}

/// Each of the numbers that are there once, in the order of their first
/// occurrence.
pub open spec fn distinct(v: Seq<Option<u32>>) -> Seq<u32>
    decreases v.len(),
{
    if v.len() == 0 {
        Seq::empty()
    } else {
        let rest = distinct(v.drop_last());
        match v.last() {
            Some(t) => if rest.contains(t) {
                rest
            } else {
                rest.push(t)
            },
            None => rest,
        }
    }
}

/// The kinds of chains that a wallet can pay on, by number: those of its
/// accounts, each once, and `evm` when none is known.
pub fn supported_chains(found: &Vec<Option<u32>>, evm: u32) -> (r: Vec<u32>)
    ensures
        r@ == if distinct(found@).len() == 0 {
            seq![evm]
        } else {
            distinct(found@)
        },
{
    let mut out: Vec<u32> = Vec::new();
    let mut i: usize = 0;
    assert(found@.take(0) =~= Seq::<Option<u32>>::empty());
    while i < found.len()
        invariant
            i <= found@.len(),
            out@ == distinct(found@.take(i as int)),
        decreases found@.len() - i,
    {
        assert(found@.take(i + 1).drop_last() =~= found@.take(i as int));
        if let Some(t) = found[i] {
            let mut seen = false;
            let mut k: usize = 0;
            while k < out.len()
                invariant
                    k <= out@.len(),
                    seen == exists|j: int| 0 <= j < k && out@[j] == t,
                decreases out@.len() - k,
            {
                if out[k] == t {
                    seen = true;
                }
                k = k + 1;
            }
            assert(seen == out@.contains(t));
            if !seen {
                out.push(t);
            }
        }
        i = i + 1;
    }
    assert(found@.take(i as int) =~= found@);
    if out.len() == 0 {
        out.push(evm);
        assert(out@ =~= seq![evm]);
    }
    out
}

/// The first chain, from position `i` on, in a namespace.
pub open spec fn first_in(chains: Seq<Seq<char>>, ns: Seq<char>, i: int) -> Option<int>
    decreases chains.len() - i,
{
    if i >= chains.len() {
        None
    } else if (ns + ":"@).is_prefix_of(chains[i]) {
        Some(i)
    } else {
        first_in(chains, ns, i + 1)
    }
}

/// Why a wallet did not pay.
#[derive(Debug, PartialEq, Eq, Structural, Clone, Copy)]
pub enum PayCode {
    WalletNotFound,
    SigningFailed,
    ProtocolUnknown,
}

/// A failure of a wallet that was asked to pay.
#[derive(Debug)]
pub struct PayFault {
    pub code: PayCode,
    pub message: String,
}

impl PayFault {
    /// Whether this is the failure with this code and message.
    pub open spec fn is(self, code: PayCode, message: Seq<char>) -> bool {
        self.code == code && self.message@ == message
    }
}

/// The account that pays on a network: the first one of the wallet in the
/// network's namespace. Without the wallet or the account no wallet was found.
pub fn account(network: &str, wallet: &Result<Vec<String>, String>) -> (r: Result<usize, PayFault>)
    ensures
        match *wallet {
            Err(e) => r matches Err(f) && f.is(PayCode::WalletNotFound, e@),
            Ok(chain_ids) => match first_in(texts(chain_ids@), namespace(network@), 0) {
                Some(i) => r matches Ok(k) && k == i,
                None => r matches Err(f) && f.is(
                    PayCode::WalletNotFound,
                    "no "@ + namespace(network@) + " account in wallet"@,
                ),
            },
        },
{
    let chain_ids = match wallet {
        Ok(ids) => ids,
        Err(e) => {
            return Err(PayFault { code: PayCode::WalletNotFound, message: e.clone() });
        },
    };
    let ns = namespace_of(network);
    let head = ns.clone().concat(":");
    let mut i: usize = 0;
    while i < chain_ids.len()
        invariant
            i <= chain_ids@.len(),
            *wallet == Ok::<Vec<String>, String>(*chain_ids),
            head@ == namespace(network@) + ":"@,
            first_in(texts(chain_ids@), namespace(network@), 0) == first_in(
                texts(chain_ids@),
                namespace(network@),
                i as int,
            ),
        decreases chain_ids@.len() - i,
    {
        if starts_with(chain_ids[i].as_str(), head.as_str()) {
            return Ok(i);
        }
        i = i + 1;
    }
    Err(
        PayFault {
            code: PayCode::WalletNotFound,
            message: "no ".to_owned().concat(ns.as_str()).concat(" account in wallet"),
        },
    )
}

/// Whether payloads of a scheme are signed: only those of an exact payment.
pub fn check_scheme(scheme: &str) -> (r: Result<(), PayFault>)
    ensures
        match r {
            Ok(_) => scheme@ == "exact"@,
            Err(f) => scheme@ != "exact"@ && f.is(
                PayCode::ProtocolUnknown,
                "unsupported payment scheme: "@ + scheme@,
            ),
        },
{
    if same(scheme, "exact") {
        Ok(())
    } else {
        Err(
            PayFault {
                code: PayCode::ProtocolUnknown,
                message: "unsupported payment scheme: ".to_owned().concat(scheme),
            },
        )
    }
}

/// The signature over a payload, from what the signer gave: in hexadecimal,
/// behind `0x`.
pub fn sign_payload(scheme: &str, signed: &Result<String, String>) -> (r: Result<String, PayFault>)
    ensures
        scheme@ != "exact"@ ==> (r matches Err(f) && f.is(
            PayCode::ProtocolUnknown,
            "unsupported payment scheme: "@ + scheme@,
        )),
        scheme@ == "exact"@ ==> match *signed {
            Ok(s) => r matches Ok(t) && t@ == "0x"@ + s@,
            Err(e) => r matches Err(f) && f.is(PayCode::SigningFailed, e@),
        },
{
    match check_scheme(scheme) {
        Err(f) => Err(f),
        Ok(_) => match signed {
            Ok(s) => Ok("0x".to_owned().concat(s.as_str())),
            Err(e) => Err(PayFault { code: PayCode::SigningFailed, message: e.clone() }),
        },
    }
}

/// What was paid.
#[derive(Debug)]
pub struct Payment {
    pub amount: String,
    pub network: String,
}

/// What is printed of an answer, beside its body.
pub open spec fn answer_line(status: u16, protocol: Seq<char>, payment: Option<Payment>) -> Option<
    Seq<char>,
> {
    if status < 400 {
        match payment {
            Some(p) => if p.amount@.len() == 0 {
                Some("Paid via "@ + protocol)
            } else {
                Some("Paid "@ + p.amount@ + " on "@ + p.network@ + " via "@ + protocol)
            },
            None => None,
        }
    } else if payment is Some {
        Some("HTTP "@ + decimal(status as int) + " — payment rejected by server"@)
    } else {
        Some("HTTP "@ + decimal(status as int))
    }
}

/// What is printed of an answer, beside its body.
pub fn run(status: u16, protocol: &str, payment: &Option<Payment>) -> (r: Option<String>)
    ensures
        opt_text(r) == answer_line(status, protocol@, *payment),
{
    if status < 400 {
        return match payment {
            Some(p) => {
                if p.amount.as_str().unicode_len() == 0 {
                    Some("Paid via ".to_owned().concat(protocol))
                } else {
                    Some(
                        "Paid ".to_owned().concat(p.amount.as_str()).concat(" on ").concat(
                            p.network.as_str(),
                        ).concat(" via ").concat(protocol),
                    )
                }
            },
            None => None,
        };
    }
    let head = "HTTP ".to_owned().concat(dec(status as u128).as_str());
    if payment.is_some() {
        Some(head.concat(" — payment rejected by server"))
    } else {
        Some(head)
    }
}

/// A service that can be paid for.
#[derive(Debug)]
pub struct Service {
    pub price: String,
    pub network: String,
    pub description: String,
    pub url: String,
}

/// A service as it is listed, on two lines and an empty one.
pub open spec fn service_text(s: Service) -> Seq<char> {
    "  "@ + pad_left(s.price@, 8) + "  "@ + pad_right(s.network@, 8) + "  "@ + s.description@
        + "\n"@ + "  "@ + pad_left(Seq::empty(), 8) + "  "@ + pad_right(Seq::empty(), 8) + "  "@
        + s.url@ + "\n\n"@
}

/// The services as they are listed.
pub open spec fn services_text(v: Seq<Service>) -> Seq<char>
    decreases v.len(),
{
    if v.len() == 0 {
        Seq::empty()
    } else {
        services_text(v.drop_last()) + service_text(v.last())
    }
}

/// The heading of a page of services.
pub fn discover_heading(offset: u64, count: usize, total: u64) -> (r: String)
    ensures
        r@ == if count == 0 {
            "No services found."@
        } else {
            "Showing "@ + decimal(offset + 1) + "-"@ + decimal(offset + count) + " of "@ + decimal(
                total as int,
            ) + " services:\n"@
        },
{
    if count == 0 {
        return "No services found.".to_owned();
    }
    "Showing ".to_owned().concat(dec(offset as u128 + 1).as_str()).concat("-").concat(
        dec(offset as u128 + count as u128).as_str(),
    ).concat(" of ").concat(dec(total as u128).as_str()).concat(" services:\n")
}

/// The services as they are listed.
pub fn discover(services: &Vec<Service>) -> (r: String)
    ensures
        r@ == services_text(services@),
{
    let empty = String::new();
    let mut out = String::new();
    let mut i: usize = 0;
    assert(services@.take(0) =~= Seq::<Service>::empty());
    while i < services.len()
        invariant
            i <= services@.len(),
            empty@ =~= Seq::<char>::empty(),
            out@ == services_text(services@.take(i as int)),
        decreases services@.len() - i,
    {
        assert(services@.take(i + 1).drop_last() =~= services@.take(i as int));
        let s = &services[i];
        let line = "  ".to_owned().concat(padded_left(s.price.as_str(), 8).as_str()).concat(
            "  ",
        ).concat(padded_right(s.network.as_str(), 8).as_str()).concat("  ").concat(
            s.description.as_str(),
        ).concat("\n").concat("  ").concat(padded_left(empty.as_str(), 8).as_str()).concat(
            "  ",
        ).concat(padded_right(empty.as_str(), 8).as_str()).concat("  ").concat(
            s.url.as_str(),
        ).concat("\n\n");
        out = out.concat(line.as_str());
        i = i + 1;
    }
    assert(services@.take(i as int) =~= services@);
    out
}

/// The chains are those that were found, each once, in the order in which they
/// were found first.
pub proof fn law_chains_are_listed_once(v: Seq<Option<u32>>, t: u32)
    ensures
        distinct(v).contains(t) <==> v.contains(Some(t)),
        distinct(v).no_duplicates(),
    decreases v.len(),
{
    if v.len() > 0 {
        let front = v.drop_last();
        law_chains_are_listed_once(front, t);
        let rest = distinct(front);
        let all = distinct(v);
        if front.contains(Some(t)) {
            let i = choose|i: int| 0 <= i < front.len() && front[i] == Some(t);
            assert(v[i] == Some(t));
        }
        if v.contains(Some(t)) {
            let i = choose|i: int| 0 <= i < v.len() && v[i] == Some(t);
            if i < front.len() {
                assert(front[i] == Some(t));
            }
        }
        if rest.contains(t) {
            let i = choose|i: int| 0 <= i < rest.len() && rest[i] == t;
            assert(all[i] == t);
        }
        if all.contains(t) {
            let i = choose|i: int| 0 <= i < all.len() && all[i] == t;
            if i < rest.len() {
                assert(rest[i] == t);
            } else {
                assert(v[v.len() - 1] == Some(t));
            }
        }
        if v.last() == Some(t) && !rest.contains(t) {
            assert(all.last() == t);
            assert(all.contains(t));
        }
    }
}

/// The account that pays is the first one in the namespace of the network.
pub proof fn law_first_account_pays(chains: Seq<Seq<char>>, ns: Seq<char>, from: int)
    requires
        0 <= from,
    ensures
        first_in(chains, ns, from) matches Some(i) ==> from <= i < chains.len() && (ns
            + ":"@).is_prefix_of(chains[i]) && (forall|k: int|
            from <= k < i ==> !(ns + ":"@).is_prefix_of(#[trigger] chains[k])),
        first_in(chains, ns, from) is None ==> forall|k: int|
            from <= k < chains.len() ==> !(ns + ":"@).is_prefix_of(#[trigger] chains[k]),
    decreases chains.len() - from,
{
    if from < chains.len() && !(ns + ":"@).is_prefix_of(chains[from]) {
        law_first_account_pays(chains, ns, from + 1);
    }
}

/// The namespace of a chain is what stands before its first colon.
pub proof fn law_namespace_ends_at_the_colon(name: Seq<char>, reference: Seq<char>)
    requires
        !name.contains(':'),
    ensures
        namespace(name + seq![':'] + reference) == name,
        namespace(name) == name,
{
    let s = name + seq![':'] + reference;
    law_sides_are_cut_apart(name, ':', reference);
    lemma_index_or_len(s, ':');
    lemma_index_or_len(name, ':');
    let i = index_or_len(s, ':');
    assert(s.contains(':')) by {
        assert(s[name.len() as int] == ':');
    }
    assert(s.take(i) == name);
    if index_or_len(name, ':') < name.len() {
        assert(name.contains(':'));
    }
}

/// A payment is reported as made only when the server accepted it; one that it
/// refused is never.
pub proof fn law_refused_payments_are_not_reported_as_paid(
    status: u16,
    protocol: Seq<char>,
    payment: Payment,
)
    ensures
        status >= 400 ==> answer_line(status, protocol, Some(payment)) == Some(
            "HTTP "@ + decimal(status as int) + " — payment rejected by server"@,
        ),
        status >= 400 ==> answer_line(status, protocol, None) == Some(
            "HTTP "@ + decimal(status as int),
        ),
        status < 400 ==> answer_line(status, protocol, None) is None,
        status < 400 && payment.amount@.len() > 0 ==> answer_line(status, protocol, Some(payment))
            == Some("Paid "@ + payment.amount@ + " on "@ + payment.network@ + " via "@ + protocol),
{
}

/// A service is shown by its price, its network, its description and its address,
/// and services stand in their order.
pub proof fn law_services_are_shown(v: Seq<Service>, s: Service)
    ensures
        services_text(v.push(s)) == services_text(v) + service_text(s),
        services_text(Seq::<Service>::empty()).len() == 0,
        shows(service_text(s), "  "@, pad_left(s.price@, 8)),
        shows(service_text(s), "  "@, pad_right(s.network@, 8)),
        shows(service_text(s), "  "@, s.description@ + "\n"@),
        ("  "@ + s.url@ + "\n\n"@).is_suffix_of(service_text(s)),
{
    assert(v.push(s).drop_last() =~= v);
    let t = service_text(s);
    let price = pad_left(s.price@, 8);
    let network = pad_right(s.network@, 8);
    let none = pad_left(Seq::empty(), 8);
    let blank = pad_right(Seq::empty(), 8);
    let last = "  "@ + none + "  "@ + blank + "  "@ + s.url@ + "\n\n"@;
    let d = s.description@ + "\n"@;
    assert(t =~= (Seq::<char>::empty()) + "  "@ + price + ("  "@ + network + "  "@ + d + last));
    lemma_shows(Seq::<char>::empty(), "  "@, price, "  "@ + network + "  "@ + d + last);
    assert(t =~= ("  "@ + price) + "  "@ + network + ("  "@ + d + last));
    lemma_shows("  "@ + price, "  "@, network, "  "@ + d + last);
    assert(t =~= ("  "@ + price + "  "@ + network) + "  "@ + d + (last));
    lemma_shows("  "@ + price + "  "@ + network, "  "@, d, last);
    let e = "  "@ + s.url@ + "\n\n"@;
    assert(t.subrange(t.len() - e.len(), t.len() as int) =~= e);
}

} // verus!
