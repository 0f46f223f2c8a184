//! `sign-in`: CAIP-122 sign-in messages.
//!
//! Messages are built, inspected and verified by the sign-in library; here is
//! what it is asked to do, in which order, and how the outcome is shown.
use vstd::prelude::*;

use crate::codec::{
    base58_bytes, base58_decode, hex_bytes, hex_decode, hex_digit, hex_text, is_hex,
    law_hex_round_trips, strip_0x, without_0x,
};
use crate::commands::text_result;
use crate::commands::sbom::at;
use crate::commands::wc::bytes_result;
use crate::commands::totp::json_text;
use crate::error::{invalid, invalid_args, CliError, CliErrorView};
use crate::json::{
    array, empty_object, json_is_null, json_items, json_members, json_of, null, setting_value,
    with_member, Setting, SettingView,
};
use crate::text::{
    clone_all, clone_opt, cut_once, law_cutting_gives_both_sides, law_sides_are_cut_apart,
    law_trimmed_ends_are_of_the_set, opt_text, same, split_once, texts, trim_end_of,
    trimmed_newlines,
};

verus! {

/// A file that was asked for, and what came of reading it.
#[derive(Debug)]
pub struct FileRead {
    pub path: String,
    pub content: Result<String, String>,
}

/// The message from its flag, or from its file without trailing line breaks;
/// exactly one of them is needed.
pub open spec fn loaded_message(message: Option<Seq<char>>, file: Option<FileRead>) -> Result<
    Seq<char>,
    CliErrorView,
> {
    match (message, file) {
        (Some(m), None) => Ok(m),
        (None, Some(f)) => match f.content {
            Ok(c) => Ok(trim_end_of(c@, seq!['\n', '\r'])),
            Err(e) => Err(
                CliErrorView::InvalidArgs(
                    "cannot read message file '"@ + f.path@ + "': "@ + e@,
                ),
            ),
        },
        (Some(_), Some(_)) => Err(
            CliErrorView::InvalidArgs("--message and --message-file are mutually exclusive"@),
        ),
        (None, None) => Err(
            CliErrorView::InvalidArgs("one of --message or --message-file is required"@),
        ),
    }
}

/// The message from its flag or its file.
pub fn load_message(message: &Option<String>, file: &Option<FileRead>) -> (r: Result<
    String,
    CliError,
>)
    ensures
        text_result(r) == loaded_message(opt_text(*message), *file),
{
    match (message, file) {
        (Some(m), None) => Ok(m.clone()),
        (None, Some(f)) => match &f.content {
            Ok(c) => Ok(trimmed_newlines(c.as_str())),
            Err(e) => Err(
                invalid_args(
                    "cannot read message file '".to_owned().concat(f.path.as_str()).concat(
                        "': ",
                    ).concat(e.as_str()),
                ),
            ),
        },
        (Some(_), Some(_)) => Err(
            invalid("--message and --message-file are mutually exclusive"),
        ),
        (None, None) => Err(invalid("one of --message or --message-file is required")),
    }
}

/// The error for a chain that is no CAIP-2 identifier.
pub open spec fn chain_error(chain: Seq<char>) -> CliErrorView {
    CliErrorView::InvalidArgs(
        "chain '"@ + chain + "' is not a CAIP-2 chain id (ns:reference)"@,
    )
}

/// The namespace and the reference of a CAIP-2 chain identifier.
pub fn split_chain(chain: &str) -> (r: Result<(String, String), CliError>)
    ensures
        match r {
            Ok((n, f)) => split_once(chain@, ':') == Some((n@, f@)),
            Err(e) => split_once(chain@, ':') is None && e@ == chain_error(chain@),
        },
{
    match cut_once(chain, ':') {
        Some(p) => Ok(p),
        None => Err(
            invalid_args(
                "chain '".to_owned().concat(chain).concat(
                    "' is not a CAIP-2 chain id (ns:reference)",
                ),
            ),
        ),
    }
}

/// The namespaces that sign-in supports.
#[derive(Clone, Copy, Debug, PartialEq, Eq, Structural)]
pub enum Namespace {
    Evm,
    Solana,
}

/// The namespace of a name.
pub open spec fn namespace_of(name: Seq<char>) -> Option<Namespace> {
    if name == "eip155"@ {
        Some(Namespace::Evm)
    } else if name == "solana"@ {
        Some(Namespace::Solana)
    } else {
        None
    }
}

/// The error for a namespace that sign-in does not support.
pub open spec fn namespace_error(name: Seq<char>) -> CliErrorView {
    CliErrorView::InvalidArgs("unsupported sign-in namespace: "@ + name)
}

/// The namespace of a name, which decides the label and the verifier.
pub fn chain_label(namespace: &str) -> (r: Result<Namespace, CliError>)
    ensures
        match r {
            Ok(n) => namespace_of(namespace@) == Some(n),
            Err(e) => namespace_of(namespace@) is None && e@ == namespace_error(namespace@),
        },
{
    if same(namespace, "eip155") {
        Ok(Namespace::Evm)
    } else if same(namespace, "solana") {
        Ok(Namespace::Solana)
    } else {
        Err(invalid_args("unsupported sign-in namespace: ".to_owned().concat(namespace)))
    }
}

/// A signature: hexadecimal with or without `0x`, and base58 for Solana.
pub open spec fn signature_of(signature: Seq<char>, namespace: Seq<char>) -> Result<
    Seq<u8>,
    CliErrorView,
> {
    let digits = without_0x(signature);
    if is_hex(digits) {
        Ok(hex_bytes(digits))
    } else if namespace == "solana"@ {
        match base58_bytes(signature) {
            Ok(b) => Ok(b),
            Err(fault) => Err(
                CliErrorView::InvalidArgs("invalid signature (hex or base58): "@ + fault),
            ),
        }
    } else {
        Err(CliErrorView::InvalidArgs("invalid signature hex (0x prefix optional)"@))
    }
}

/// The bytes of a signature.
pub fn decode_signature(signature: &str, namespace: &str) -> (r: Result<Vec<u8>, CliError>)
    ensures
        bytes_result(r) == signature_of(signature@, namespace@),
{
    match hex_decode(strip_0x(signature).as_str()) {
        Ok(b) => return Ok(b),
        Err(_) => {},
    }
    if same(namespace, "solana") {
        return match base58_decode(signature) {
            Ok(b) => Ok(b),
            Err(e) => Err(
                invalid_args("invalid signature (hex or base58): ".to_owned().concat(e.as_str())),
            ),
        };
    }
    Err(invalid("invalid signature hex (0x prefix optional)"))
}

/// An optional part of a message.
#[derive(Debug)]
pub enum Part {
    Statement(String),
    IssuedAt(String),
    ExpirationTime(String),
    NotBefore(String),
    RequestId(String),
    Resources(Vec<String>),
}

/// A [`Part`] with its texts as sequences of characters.
pub enum PartView {
    Statement(Seq<char>),
    IssuedAt(Seq<char>),
    ExpirationTime(Seq<char>),
    NotBefore(Seq<char>),
    RequestId(Seq<char>),
    Resources(Seq<Seq<char>>),
}

impl View for Part {
    type V = PartView;

    open spec fn view(&self) -> PartView {
        match *self {
            Part::Statement(s) => PartView::Statement(s@),
            Part::IssuedAt(s) => PartView::IssuedAt(s@),
            Part::ExpirationTime(s) => PartView::ExpirationTime(s@),
            Part::NotBefore(s) => PartView::NotBefore(s@),
            Part::RequestId(s) => PartView::RequestId(s@),
            Part::Resources(v) => PartView::Resources(texts(v@)),
        }
    }
}

/// The views of parts.
pub open spec fn parts_view(v: Seq<Part>) -> Seq<PartView> {
    Seq::new(v.len(), |i: int| v[i]@)
}

/// The name of a part in an error.
pub open spec fn part_label(p: PartView) -> Seq<char> {
    match p {
        PartView::Statement(_) => "statement"@,
        PartView::IssuedAt(_) => "issued-at"@,
        PartView::ExpirationTime(_) => "expiration-time"@,
        PartView::NotBefore(_) => "not-before"@,
        PartView::RequestId(_) => "request-id"@,
        PartView::Resources(_) => "resources"@,
    }
}

/// The error for a part that the message cannot have.
pub fn part_error(p: &Part, message: &str) -> (e: CliError)
    ensures
        e@ == CliErrorView::InvalidArgs("invalid "@ + part_label(p@) + ": "@ + message@),
{
    let label = match p {
        Part::Statement(_) => "statement",
        Part::IssuedAt(_) => "issued-at",
        Part::ExpirationTime(_) => "expiration-time",
        Part::NotBefore(_) => "not-before",
        Part::RequestId(_) => "request-id",
        Part::Resources(_) => "resources",
    };
    invalid_args("invalid ".to_owned().concat(label).concat(": ").concat(message))
}

/// What a message is to be built from.
#[derive(Debug)]
pub struct MessageArgs {
    pub domain: String,
    pub address: String,
    pub uri: String,
    pub statement: Option<String>,
    pub nonce: Option<String>,
    pub issued_at: Option<String>,
    pub expiration_time: Option<String>,
    pub not_before: Option<String>,
    pub request_id: Option<String>,
    pub resources: Vec<String>,
}

/// One part, if it is there.
pub open spec fn one_part(o: Option<Seq<char>>, p: spec_fn(Seq<char>) -> PartView) -> Seq<PartView> {
    match o {
        Some(s) => seq![p(s)],
        None => Seq::empty(),
    }
}

/// The optional parts of a message, in the order they are added.
pub open spec fn message_parts(a: MessageArgs) -> Seq<PartView> {
    one_part(opt_text(a.statement), |s: Seq<char>| PartView::Statement(s)) + one_part(
        opt_text(a.issued_at),
        |s: Seq<char>| PartView::IssuedAt(s),
    ) + one_part(opt_text(a.expiration_time), |s: Seq<char>| PartView::ExpirationTime(s))
        + one_part(opt_text(a.not_before), |s: Seq<char>| PartView::NotBefore(s)) + one_part(
        opt_text(a.request_id),
        |s: Seq<char>| PartView::RequestId(s),
    ) + if a.resources@.len() > 0 {
        seq![PartView::Resources(texts(a.resources@))]
    } else {
        Seq::empty()
    }
}

/// The parts hold exactly what the arguments give: each argument under its own
/// name, nothing that was not given, and nothing twice.
pub open spec fn parts_match(parts: Seq<PartView>, a: MessageArgs) -> bool {
    &&& forall|t: Seq<char>|
        #[trigger] parts.contains(PartView::Statement(t)) <==> opt_text(a.statement) == Some(t)
    &&& forall|t: Seq<char>|
        #[trigger] parts.contains(PartView::IssuedAt(t)) <==> opt_text(a.issued_at) == Some(t)
    &&& forall|t: Seq<char>|
        #[trigger] parts.contains(PartView::ExpirationTime(t)) <==> opt_text(a.expiration_time)
            == Some(t)
    &&& forall|t: Seq<char>|
        #[trigger] parts.contains(PartView::NotBefore(t)) <==> opt_text(a.not_before) == Some(t)
    &&& forall|t: Seq<char>|
        #[trigger] parts.contains(PartView::RequestId(t)) <==> opt_text(a.request_id) == Some(t)
    &&& forall|v: Seq<Seq<char>>|
        #[trigger] parts.contains(PartView::Resources(v)) <==> v.len() > 0 && v == texts(
            a.resources@,
        )
    &&& parts.no_duplicates()
}

proof fn lemma_one_part(o: Option<Seq<char>>, p: spec_fn(Seq<char>) -> PartView, x: PartView)
    ensures
        one_part(o, p).contains(x) <==> (o matches Some(s) && p(s) == x),
        one_part(o, p).no_duplicates(),
{
    if let Some(s) = o {
        assert(one_part(o, p)[0] == p(s));
    }
}

proof fn lemma_sum_contains(a: Seq<PartView>, b: Seq<PartView>, x: PartView)
    ensures
        (a + b).contains(x) <==> a.contains(x) || b.contains(x),
{
    let s = a + b;
    if a.contains(x) {
        let i = choose|i: int| 0 <= i < a.len() && a[i] == x;
        assert(s[i] == x);
    }
    if b.contains(x) {
        let i = choose|i: int| 0 <= i < b.len() && b[i] == x;
        assert(s[a.len() + i] == x);
    }
}

spec fn part_rank(p: PartView) -> int {
    match p {
        PartView::Statement(_) => 1,
        PartView::IssuedAt(_) => 2,
        PartView::ExpirationTime(_) => 3,
        PartView::NotBefore(_) => 4,
        PartView::RequestId(_) => 5,
        PartView::Resources(_) => 6,
    }
}

spec fn ranks_rise(s: Seq<PartView>, below: int) -> bool {
    &&& forall|i: int, j: int|
        0 <= i < j < s.len() ==> part_rank(#[trigger] s[i]) < part_rank(#[trigger] s[j])
    &&& forall|i: int| 0 <= i < s.len() ==> part_rank(#[trigger] s[i]) < below
}

proof fn lemma_ranks_rise(a: Seq<PartView>, b: Seq<PartView>, k: int)
    requires
        ranks_rise(a, k),
        b.len() <= 1,
        b.len() == 1 ==> part_rank(b[0]) == k,
    ensures
        ranks_rise(a + b, k + 1),
{
}

proof fn lemma_parts_members(a: MessageArgs, x: PartView)
    ensures
        message_parts(a).contains(x) <==> {
            ||| opt_text(a.statement) matches Some(s) && x == PartView::Statement(s)
            ||| opt_text(a.issued_at) matches Some(s) && x == PartView::IssuedAt(s)
            ||| opt_text(a.expiration_time) matches Some(s) && x == PartView::ExpirationTime(s)
            ||| opt_text(a.not_before) matches Some(s) && x == PartView::NotBefore(s)
            ||| opt_text(a.request_id) matches Some(s) && x == PartView::RequestId(s)
            ||| a.resources@.len() > 0 && x == PartView::Resources(texts(a.resources@))
        },
        message_parts(a).no_duplicates(),
{
    let f1 = |s: Seq<char>| PartView::Statement(s);
    let f2 = |s: Seq<char>| PartView::IssuedAt(s);
    let f3 = |s: Seq<char>| PartView::ExpirationTime(s);
    let f4 = |s: Seq<char>| PartView::NotBefore(s);
    let f5 = |s: Seq<char>| PartView::RequestId(s);
    let p1 = one_part(opt_text(a.statement), f1);
    let p2 = one_part(opt_text(a.issued_at), f2);
    let p3 = one_part(opt_text(a.expiration_time), f3);
    let p4 = one_part(opt_text(a.not_before), f4);
    let p5 = one_part(opt_text(a.request_id), f5);
    let p6 = if a.resources@.len() > 0 {
        seq![PartView::Resources(texts(a.resources@))]
    } else {
        Seq::<PartView>::empty()
    };
    let all = message_parts(a);
    assert(all == p1 + p2 + p3 + p4 + p5 + p6);
    lemma_sum_contains(p1, p2, x);
    lemma_sum_contains(p1 + p2, p3, x);
    lemma_sum_contains(p1 + p2 + p3, p4, x);
    lemma_sum_contains(p1 + p2 + p3 + p4, p5, x);
    lemma_sum_contains(p1 + p2 + p3 + p4 + p5, p6, x);
    lemma_one_part(opt_text(a.statement), f1, x);
    lemma_one_part(opt_text(a.issued_at), f2, x);
    lemma_one_part(opt_text(a.expiration_time), f3, x);
    lemma_one_part(opt_text(a.not_before), f4, x);
    lemma_one_part(opt_text(a.request_id), f5, x);
    if a.resources@.len() > 0 {
        assert(p6[0] == PartView::Resources(texts(a.resources@)));
    }
    lemma_ranks_rise(Seq::empty(), p1, 1);
    assert(Seq::<PartView>::empty() + p1 =~= p1);
    lemma_ranks_rise(p1, p2, 2);
    lemma_ranks_rise(p1 + p2, p3, 3);
    lemma_ranks_rise(p1 + p2 + p3, p4, 4);
    lemma_ranks_rise(p1 + p2 + p3 + p4, p5, 5);
    lemma_ranks_rise(p1 + p2 + p3 + p4 + p5, p6, 6);
    assert(all.no_duplicates()) by {
        assert forall|i: int, j: int| 0 <= i < all.len() && 0 <= j < all.len() && i
            != j implies all[i] != all[j] by {
            if i < j {
                assert(part_rank(all[i]) < part_rank(all[j]));
            } else {
                assert(part_rank(all[j]) < part_rank(all[i]));
            }
        }
    }
}

/// The parts of a message hold each argument under its own name and nothing
/// else.
pub proof fn law_parts_match_the_arguments(a: MessageArgs)
    ensures
        parts_match(message_parts(a), a),
{
    let all = message_parts(a);
    lemma_parts_members(a, PartView::Statement(Seq::empty()));
    assert forall|t: Seq<char>|
        #[trigger] all.contains(PartView::Statement(t)) <==> opt_text(a.statement) == Some(t) by {
        lemma_parts_members(a, PartView::Statement(t));
    }
    assert forall|t: Seq<char>|
        #[trigger] all.contains(PartView::IssuedAt(t)) <==> opt_text(a.issued_at) == Some(t) by {
        lemma_parts_members(a, PartView::IssuedAt(t));
    }
    assert forall|t: Seq<char>|
        #[trigger] all.contains(PartView::ExpirationTime(t)) <==> opt_text(a.expiration_time)
            == Some(t) by {
        lemma_parts_members(a, PartView::ExpirationTime(t));
    }
    assert forall|t: Seq<char>|
        #[trigger] all.contains(PartView::NotBefore(t)) <==> opt_text(a.not_before) == Some(t) by {
        lemma_parts_members(a, PartView::NotBefore(t));
    }
    assert forall|t: Seq<char>|
        #[trigger] all.contains(PartView::RequestId(t)) <==> opt_text(a.request_id) == Some(t) by {
        lemma_parts_members(a, PartView::RequestId(t));
    }
    assert forall|v: Seq<Seq<char>>|
        #[trigger] all.contains(PartView::Resources(v)) <==> v.len() > 0 && v == texts(
            a.resources@,
        ) by {
        lemma_parts_members(a, PartView::Resources(v));
        assert(texts(a.resources@).len() == a.resources@.len());
    }
}

/// How a message is built: for a chain, from a domain, an address and a URI,
/// with a given nonce or a fresh one, and with the optional parts in order.
#[derive(Debug)]
pub struct MessagePlan {
    pub domain: String,
    pub address: String,
    pub uri: String,
    pub namespace: Namespace,
    pub reference: String,
    pub nonce: Option<String>,
    pub parts: Vec<Part>,
}

fn push_part(out: &mut Vec<Part>, p: Part)
    ensures
        parts_view(final(out)@) == parts_view(old(out)@).push(p@),
{
    let ghost before = out@;
    out.push(p);
    assert(parts_view(out@) =~= parts_view(before).push(p@));
}

fn collect_parts(a: &MessageArgs) -> (r: Vec<Part>)
    ensures
        parts_view(r@) == message_parts(*a),
{
    let mut out: Vec<Part> = Vec::new();
    match &a.statement {
        Some(s) => push_part(&mut out, Part::Statement(s.clone())),
        None => {},
    }
    match &a.issued_at {
        Some(s) => push_part(&mut out, Part::IssuedAt(s.clone())),
        None => {},
    }
    match &a.expiration_time {
        Some(s) => push_part(&mut out, Part::ExpirationTime(s.clone())),
        None => {},
    }
    match &a.not_before {
        Some(s) => push_part(&mut out, Part::NotBefore(s.clone())),
        None => {},
    }
    match &a.request_id {
        Some(s) => push_part(&mut out, Part::RequestId(s.clone())),
        None => {},
    }
    if a.resources.len() > 0 {
        push_part(&mut out, Part::Resources(clone_all(&a.resources)));
    }
    assert(parts_view(out@) =~= message_parts(*a));
    out
}

/// The namespace of a chain identifier, as it is written.
pub open spec fn namespace_name(chain: Seq<char>) -> Seq<char> {
    match split_once(chain, ':') {
        Some((name, _)) => name,
        None => Seq::empty(),
    }
}

/// What comes of the namespace and reference of a chain.
pub open spec fn chain_of(chain: Seq<char>) -> Result<(Namespace, Seq<char>), CliErrorView> {
    match split_once(chain, ':') {
        None => Err(chain_error(chain)),
        Some((name, reference)) => match namespace_of(name) {
            None => Err(namespace_error(name)),
            Some(n) => Ok((n, reference)),
        },
    }
}

/// How to build a message on `chain`.
pub fn run_message(chain: &str, args: &MessageArgs) -> (r: Result<MessagePlan, CliError>)
    ensures
        match r {
            Ok(p) => chain_of(chain@) == Ok::<(Namespace, Seq<char>), CliErrorView>(
                (p.namespace, p.reference@),
            ) && p.domain@ == args.domain@ && p.address@ == args.address@ && p.uri@ == args.uri@
                && opt_text(p.nonce) == opt_text(args.nonce) && parts_view(p.parts@)
                == message_parts(*args) && parts_match(parts_view(p.parts@), *args),
            Err(e) => chain_of(chain@) == Err::<(Namespace, Seq<char>), CliErrorView>(e@),
        },
{
    proof {
        law_parts_match_the_arguments(*args);
    }
    let (name, reference) = match split_chain(chain) {
        Ok(p) => p,
        Err(e) => return Err(e),
    };
    let namespace = match chain_label(name.as_str()) {
        Ok(n) => n,
        Err(e) => return Err(e),
    };
    Ok(
        MessagePlan {
            domain: args.domain.clone(),
            address: args.address.clone(),
            uri: args.uri.clone(),
            namespace,
            reference,
            nonce: clone_opt(&args.nonce),
            parts: collect_parts(args),
        },
    )
}

/// The error for a chain reference that its namespace does not know.
pub fn reference_error(namespace: Namespace, message: &str) -> (e: CliError)
    ensures
        e@ == CliErrorView::InvalidArgs(
            match namespace {
                Namespace::Evm => "invalid EVM chain id: "@ + message@,
                Namespace::Solana => "invalid Solana chain id: "@ + message@,
            },
        ),
{
    match namespace {
        Namespace::Evm => invalid_args("invalid EVM chain id: ".to_owned().concat(message)),
        Namespace::Solana => invalid_args("invalid Solana chain id: ".to_owned().concat(message)),
    }
}

/// The fields of a parsed message.
#[derive(Debug)]
pub struct ParsedMessage {
    pub domain: String,
    pub address: String,
    pub uri: String,
    pub version: String,
    pub chain_id: String,
    pub chain_name: Option<String>,
    pub statement: Option<String>,
    pub nonce: String,
    pub issued_at: String,
    pub expiration_time: Option<String>,
    pub not_before: Option<String>,
    pub request_id: Option<String>,
    pub resources: Vec<String>,
}

/// A text, or `(none)`.
pub open spec fn or_none(o: Option<Seq<char>>) -> Seq<char> {
    match o {
        Some(s) => s,
        None => "(none)"@,
    }
}

/// The lines on the resources.
pub open spec fn resource_lines(v: Seq<Seq<char>>) -> Seq<Seq<char>> {
    if v.len() == 0 {
        seq!["resources:       (none)"@]
    } else {
        seq!["resources:"@] + Seq::new(v.len(), |i: int| "  - "@ + v[i])
    }
}

/// The lines that show a parsed message.
pub open spec fn parsed_lines(m: ParsedMessage) -> Seq<Seq<char>> {
    seq![
        "domain:          "@ + m.domain@,
        "address:         "@ + m.address@,
        "uri:             "@ + m.uri@,
        "version:         "@ + m.version@,
        "chain_id:        "@ + m.chain_id@,
        "chain_name:      "@ + or_none(opt_text(m.chain_name)),
        "statement:       "@ + or_none(opt_text(m.statement)),
        "nonce:           "@ + m.nonce@,
        "issued_at:       "@ + m.issued_at@,
        "expiration_time: "@ + or_none(opt_text(m.expiration_time)),
        "not_before:      "@ + or_none(opt_text(m.not_before)),
        "request_id:      "@ + or_none(opt_text(m.request_id)),
    ] + resource_lines(texts(m.resources@))
}

fn push_line(out: &mut Vec<String>, s: String)
    ensures
        texts(final(out)@) == texts(old(out)@).push(s@),
{
    let ghost before = out@;
    out.push(s);
    assert(texts(out@) =~= texts(before).push(s@));
}

fn show_or_none(label: &str, o: &Option<String>) -> (r: String)
    ensures
        r@ == label@ + or_none(opt_text(*o)),
{
    match o {
        Some(s) => label.to_owned().concat(s.as_str()),
        None => label.to_owned().concat("(none)"),
    }
}

/// The lines that show a parsed message.
pub fn run_parse(m: &ParsedMessage) -> (r: Vec<String>)
    ensures
        texts(r@) == parsed_lines(*m),
{
    let mut out: Vec<String> = Vec::new();
    push_line(&mut out, "domain:          ".to_owned().concat(m.domain.as_str()));
    push_line(&mut out, "address:         ".to_owned().concat(m.address.as_str()));
    push_line(&mut out, "uri:             ".to_owned().concat(m.uri.as_str()));
    push_line(&mut out, "version:         ".to_owned().concat(m.version.as_str()));
    push_line(&mut out, "chain_id:        ".to_owned().concat(m.chain_id.as_str()));
    push_line(&mut out, show_or_none("chain_name:      ", &m.chain_name));
    push_line(&mut out, show_or_none("statement:       ", &m.statement));
    push_line(&mut out, "nonce:           ".to_owned().concat(m.nonce.as_str()));
    push_line(&mut out, "issued_at:       ".to_owned().concat(m.issued_at.as_str()));
    push_line(&mut out, show_or_none("expiration_time: ", &m.expiration_time));
    push_line(&mut out, show_or_none("not_before:      ", &m.not_before));
    push_line(&mut out, show_or_none("request_id:      ", &m.request_id));
    let ghost head = texts(out@);
    let ghost want = Seq::new(m.resources@.len(), |i: int| "  - "@ + m.resources@[i]@);
    if m.resources.len() == 0 {
        push_line(&mut out, "resources:       (none)".to_owned());
    } else {
        push_line(&mut out, "resources:".to_owned());
        let ghost start = texts(out@);
        let mut i: usize = 0;
        assert(start + want.take(0) =~= start);
        while i < m.resources.len()
            invariant
                i <= m.resources@.len(),
                want == Seq::new(m.resources@.len(), |k: int| "  - "@ + m.resources@[k]@),
                texts(out@) == start + want.take(i as int),
            decreases m.resources@.len() - i,
        {
            push_line(&mut out, "  - ".to_owned().concat(m.resources[i].as_str()));
            assert(texts(out@) =~= start + want.take(i + 1));
            i = i + 1;
        }
        assert(want.take(i as int) =~= want);
        assert(want =~= Seq::new(
            texts(m.resources@).len(),
            |k: int| "  - "@ + texts(m.resources@)[k],
        ));
    }
    assert(texts(out@) =~= parsed_lines(*m));
    out
}

/// Who verifies a signature.
#[derive(Debug)]
pub enum Verifier {
    /// The Solana verifier.
    Solana,
    /// A node at this address, which also knows contract accounts.
    EvmNode(String),
    /// The verifier of key-owned EVM accounts.
    Evm,
}

/// What a message must say to be accepted.
#[derive(Debug)]
pub struct Expected {
    pub domain: String,
    pub nonce: String,
    pub uri: Option<String>,
    pub scheme: Option<String>,
    pub chain_id: Option<String>,
}

/// An [`Expected`] with its texts as sequences of characters.
pub struct ExpectedView {
    pub domain: Seq<char>,
    pub nonce: Seq<char>,
    pub uri: Option<Seq<char>>,
    pub scheme: Option<Seq<char>>,
    pub chain_id: Option<Seq<char>>,
}

impl View for Expected {
    type V = ExpectedView;

    open spec fn view(&self) -> ExpectedView {
        ExpectedView {
            domain: self.domain@,
            nonce: self.nonce@,
            uri: opt_text(self.uri),
            scheme: opt_text(self.scheme),
            chain_id: opt_text(self.chain_id),
        }
    }
}

/// What a verification needs: the message, the signature's bytes, the chain's
/// namespace and what the message must say. The verifier is chosen after the
/// message has parsed.
#[derive(Debug)]
pub struct VerifyPlan {
    pub text: String,
    pub signature: Vec<u8>,
    pub namespace: Namespace,
    pub expected: Expected,
}

/// What a verification needs, checked in order: the message, the chain, the
/// signature.
pub fn run_verify(
    message: &Option<String>,
    file: &Option<FileRead>,
    signature: &str,
    chain: &str,
    expected: Expected,
) -> (r: Result<VerifyPlan, CliError>)
    ensures
        match loaded_message(opt_text(*message), *file) {
            Err(f) => r matches Err(e) && e@ == f,
            Ok(text) => match chain_of(chain@) {
                Err(f) => r matches Err(e) && e@ == f,
                Ok((n, _)) => match signature_of(signature@, namespace_name(chain@)) {
                    Err(f) => r matches Err(e) && e@ == f,
                    Ok(bytes) => r matches Ok(p) && p.text@ == text && p.signature@ == bytes
                        && p.namespace == n && p.expected@ == expected@,
                },
            },
        },
{
    let text = match load_message(message, file) {
        Ok(t) => t,
        Err(e) => return Err(e),
    };
    let (name, _) = match split_chain(chain) {
        Ok(p) => p,
        Err(e) => return Err(e),
    };
    let namespace = match chain_label(name.as_str()) {
        Ok(n) => n,
        Err(e) => return Err(e),
    };
    let bytes = match decode_signature(signature, name.as_str()) {
        Ok(b) => b,
        Err(e) => return Err(e),
    };
    Ok(VerifyPlan { text, signature: bytes, namespace, expected })
}

/// Who verifies: a node only for EVM chains.
pub fn choose_verifier(namespace: Namespace, rpc_url: &Option<String>) -> (r: Result<
    Verifier,
    CliError,
>)
    ensures
        match (namespace, *rpc_url) {
            (Namespace::Solana, Some(_)) => r matches Err(e) && e@ == CliErrorView::InvalidArgs(
                "--rpc-url is EVM-only (Solana needs no RPC)"@,
            ),
            (Namespace::Solana, None) => r matches Ok(Verifier::Solana),
            (Namespace::Evm, Some(u)) => r matches Ok(Verifier::EvmNode(v)) && v@ == u@,
            (Namespace::Evm, None) => r matches Ok(Verifier::Evm),
        },
{
    match namespace {
        Namespace::Solana => match rpc_url {
            Some(_) => Err(invalid("--rpc-url is EVM-only (Solana needs no RPC)")),
            None => Ok(Verifier::Solana),
        },
        Namespace::Evm => match rpc_url {
            Some(u) => Ok(Verifier::EvmNode(u.clone())),
            None => Ok(Verifier::Evm),
        },
    }
}

/// A member that holds a text, or `null` without one.
pub open spec fn shows_optional(v: serde_json::Value, o: Option<Seq<char>>) -> bool {
    match o {
        Some(s) => v == json_text(s),
        None => json_is_null(v),
    }
}

/// A member that holds a list of texts.
pub open spec fn shows_texts(v: serde_json::Value, l: Seq<Seq<char>>) -> bool {
    json_items(v) == Some(Seq::new(l.len(), |i: int| json_text(l[i])))
}

fn text_member(s: &str) -> (v: serde_json::Value)
    ensures
        v == json_text(s@),
{
    setting_value(Setting::Text(s.to_owned()))
}

fn optional_member(o: &Option<String>) -> (v: serde_json::Value)
    ensures
        shows_optional(v, opt_text(*o)),
{
    match o {
        Some(s) => text_member(s.as_str()),
        None => null(),
    }
}

fn texts_member(l: &Vec<String>) -> (v: serde_json::Value)
    ensures
        shows_texts(v, texts(l@)),
{
    let mut out: Vec<serde_json::Value> = Vec::new();
    let mut i: usize = 0;
    while i < l.len()
        invariant
            i <= l@.len(),
            out@.len() == i,
            forall|k: int| 0 <= k < i ==> #[trigger] out@[k] == json_text(l@[k]@),
        decreases l@.len() - i,
    {
        out.push(text_member(l[i].as_str()));
        i = i + 1;
    }
    assert(out@ =~= Seq::new(texts(l@).len(), |k: int| json_text(texts(l@)[k])));
    array(out)
}

/// The members of the document that shows a message that was built.
pub open spec fn is_message_document(
    v: serde_json::Value,
    chain: Seq<char>,
    text: Seq<char>,
    m: ParsedMessage,
) -> bool {
    &&& json_members(v) is Some
    &&& json_members(v)->0.dom() == set![
        "chain"@,
        "message"@,
        "domain"@,
        "address"@,
        "uri"@,
        "version"@,
        "chain_id"@,
        "nonce"@,
        "issued_at"@,
        "expiration_time"@,
        "not_before"@,
    ]
    &&& json_members(v)->0["chain"@] == json_text(chain)
    &&& json_members(v)->0["message"@] == json_text(text)
    &&& json_members(v)->0["domain"@] == json_text(m.domain@)
    &&& json_members(v)->0["address"@] == json_text(m.address@)
    &&& json_members(v)->0["uri"@] == json_text(m.uri@)
    &&& json_members(v)->0["version"@] == json_text(m.version@)
    &&& json_members(v)->0["chain_id"@] == json_text(m.chain_id@)
    &&& json_members(v)->0["nonce"@] == json_text(m.nonce@)
    &&& json_members(v)->0["issued_at"@] == json_text(m.issued_at@)
    &&& shows_optional(json_members(v)->0["expiration_time"@], opt_text(m.expiration_time))
    &&& shows_optional(json_members(v)->0["not_before"@], opt_text(m.not_before))
}

/// The document that shows a message that was built, with the text to sign.
pub fn message_document(chain: &str, text: &str, m: &ParsedMessage) -> (v: serde_json::Value)
    ensures
        is_message_document(v, chain@, text@, *m),
{
    let doc = empty_object();
    let doc = with_member(doc, "chain", text_member(chain));
    let doc = with_member(doc, "message", text_member(text));
    let doc = with_member(doc, "domain", text_member(m.domain.as_str()));
    let doc = with_member(doc, "address", text_member(m.address.as_str()));
    let doc = with_member(doc, "uri", text_member(m.uri.as_str()));
    let doc = with_member(doc, "version", text_member(m.version.as_str()));
    let doc = with_member(doc, "chain_id", text_member(m.chain_id.as_str()));
    let doc = with_member(doc, "nonce", text_member(m.nonce.as_str()));
    let doc = with_member(doc, "issued_at", text_member(m.issued_at.as_str()));
    let doc = with_member(doc, "expiration_time", optional_member(&m.expiration_time));
    let doc = with_member(doc, "not_before", optional_member(&m.not_before));
    proof {
        reveal_strlit("chain");
        reveal_strlit("message");
        reveal_strlit("domain");
        reveal_strlit("address");
        reveal_strlit("uri");
        reveal_strlit("version");
        reveal_strlit("chain_id");
        reveal_strlit("nonce");
        reveal_strlit("issued_at");
        reveal_strlit("expiration_time");
        reveal_strlit("not_before");
        assert("chain"@.len() == 5 && "chain"@[0] == 'c');
        assert("message"@.len() == 7 && "message"@[0] == 'm');
        assert("domain"@.len() == 6 && "domain"@[0] == 'd');
        assert("address"@.len() == 7 && "address"@[0] == 'a');
        assert("uri"@.len() == 3 && "uri"@[0] == 'u');
        assert("version"@.len() == 7 && "version"@[0] == 'v');
        assert("chain_id"@.len() == 8 && "chain_id"@[0] == 'c');
        assert("nonce"@.len() == 5 && "nonce"@[0] == 'n');
        assert("issued_at"@.len() == 9 && "issued_at"@[0] == 'i');
        assert("expiration_time"@.len() == 15 && "expiration_time"@[0] == 'e');
        assert("not_before"@.len() == 10 && "not_before"@[0] == 'n');
        assert(json_members(doc)->0.dom() =~= set![
            "chain"@,
            "message"@,
            "domain"@,
            "address"@,
            "uri"@,
            "version"@,
            "chain_id"@,
            "nonce"@,
            "issued_at"@,
            "expiration_time"@,
            "not_before"@,
        ]);
    }
    doc
}

/// The members of the document that shows a parsed message.
pub open spec fn is_parsed_document(v: serde_json::Value, m: ParsedMessage) -> bool {
    &&& json_members(v) is Some
    &&& json_members(v)->0.dom() == set![
        "domain"@,
        "address"@,
        "uri"@,
        "version"@,
        "chain_id"@,
        "chain_name"@,
        "statement"@,
        "nonce"@,
        "issued_at"@,
        "expiration_time"@,
        "not_before"@,
        "request_id"@,
        "resources"@,
    ]
    &&& json_members(v)->0["domain"@] == json_text(m.domain@)
    &&& json_members(v)->0["address"@] == json_text(m.address@)
    &&& json_members(v)->0["uri"@] == json_text(m.uri@)
    &&& json_members(v)->0["version"@] == json_text(m.version@)
    &&& json_members(v)->0["chain_id"@] == json_text(m.chain_id@)
    &&& shows_optional(json_members(v)->0["chain_name"@], opt_text(m.chain_name))
    &&& shows_optional(json_members(v)->0["statement"@], opt_text(m.statement))
    &&& json_members(v)->0["nonce"@] == json_text(m.nonce@)
    &&& json_members(v)->0["issued_at"@] == json_text(m.issued_at@)
    &&& shows_optional(json_members(v)->0["expiration_time"@], opt_text(m.expiration_time))
    &&& shows_optional(json_members(v)->0["not_before"@], opt_text(m.not_before))
    &&& shows_optional(json_members(v)->0["request_id"@], opt_text(m.request_id))
    &&& shows_texts(json_members(v)->0["resources"@], texts(m.resources@))
}

/// The document that shows a parsed message.
pub fn parsed_document(m: &ParsedMessage) -> (v: serde_json::Value)
    ensures
        is_parsed_document(v, *m),
{
    let doc = empty_object();
    let doc = with_member(doc, "domain", text_member(m.domain.as_str()));
    let doc = with_member(doc, "address", text_member(m.address.as_str()));
    let doc = with_member(doc, "uri", text_member(m.uri.as_str()));
    let doc = with_member(doc, "version", text_member(m.version.as_str()));
    let doc = with_member(doc, "chain_id", text_member(m.chain_id.as_str()));
    let doc = with_member(doc, "chain_name", optional_member(&m.chain_name));
    let doc = with_member(doc, "statement", optional_member(&m.statement));
    let doc = with_member(doc, "nonce", text_member(m.nonce.as_str()));
    let doc = with_member(doc, "issued_at", text_member(m.issued_at.as_str()));
    let doc = with_member(doc, "expiration_time", optional_member(&m.expiration_time));
    let doc = with_member(doc, "not_before", optional_member(&m.not_before));
    let doc = with_member(doc, "request_id", optional_member(&m.request_id));
    let doc = with_member(doc, "resources", texts_member(&m.resources));
    proof {
        reveal_strlit("domain");
        reveal_strlit("address");
        reveal_strlit("uri");
        reveal_strlit("version");
        reveal_strlit("chain_id");
        reveal_strlit("chain_name");
        reveal_strlit("statement");
        reveal_strlit("nonce");
        reveal_strlit("issued_at");
        reveal_strlit("expiration_time");
        reveal_strlit("not_before");
        reveal_strlit("request_id");
        reveal_strlit("resources");
        assert("domain"@.len() == 6 && "domain"@[0] == 'd');
        assert("address"@.len() == 7 && "address"@[0] == 'a');
        assert("uri"@.len() == 3 && "uri"@[0] == 'u');
        assert("version"@.len() == 7 && "version"@[0] == 'v');
        assert("chain_id"@.len() == 8 && "chain_id"@[0] == 'c');
        assert("chain_name"@.len() == 10 && "chain_name"@[0] == 'c');
        assert("statement"@.len() == 9 && "statement"@[0] == 's');
        assert("nonce"@.len() == 5 && "nonce"@[0] == 'n');
        assert("issued_at"@.len() == 9 && "issued_at"@[0] == 'i');
        assert("expiration_time"@.len() == 15 && "expiration_time"@[0] == 'e');
        assert("not_before"@.len() == 10 && "not_before"@[0] == 'n');
        assert("request_id"@.len() == 10 && "request_id"@[0] == 'r');
        assert("resources"@.len() == 9 && "resources"@[0] == 'r');
        assert(json_members(doc)->0.dom() =~= set![
            "domain"@,
            "address"@,
            "uri"@,
            "version"@,
            "chain_id"@,
            "chain_name"@,
            "statement"@,
            "nonce"@,
            "issued_at"@,
            "expiration_time"@,
            "not_before"@,
            "request_id"@,
            "resources"@,
        ]);
    }
    doc
}

/// The members of the document on a signature that was verified.
pub open spec fn is_verified_document(v: serde_json::Value, chain: Seq<char>, m: ParsedMessage) -> bool {
    &&& json_members(v) is Some
    &&& json_members(v)->0.dom() == set!["valid"@, "chain"@, "domain"@, "address"@]
    &&& json_members(v)->0["valid"@] == json_of(SettingView::Flag(true))
    &&& json_members(v)->0["chain"@] == json_text(chain)
    &&& json_members(v)->0["domain"@] == json_text(m.domain@)
    &&& json_members(v)->0["address"@] == json_text(m.address@)
}

/// The document on a signature that was verified.
pub fn verified_document(chain: &str, m: &ParsedMessage) -> (v: serde_json::Value)
    ensures
        is_verified_document(v, chain@, *m),
{
    let doc = empty_object();
    let doc = with_member(doc, "valid", setting_value(Setting::Flag(true)));
    let doc = with_member(doc, "chain", text_member(chain));
    let doc = with_member(doc, "domain", text_member(m.domain.as_str()));
    let doc = with_member(doc, "address", text_member(m.address.as_str()));
    proof {
        reveal_strlit("valid");
        reveal_strlit("chain");
        reveal_strlit("domain");
        reveal_strlit("address");
        assert("valid"@.len() == 5 && "valid"@[0] == 'v');
        assert("chain"@.len() == 5 && "chain"@[0] == 'c');
        assert("domain"@.len() == 6 && "domain"@[0] == 'd');
        assert("address"@.len() == 7 && "address"@[0] == 'a');
        assert(json_members(doc)->0.dom() =~= set!["valid"@, "chain"@, "domain"@, "address"@]);
    }
    doc
}

/// The line on a signature that was verified.
pub fn verified_line() -> (r: String)
    ensures
        r@ == "Signature is valid."@,
{
    "Signature is valid.".to_owned()
}

/// The error for a message that cannot be built.
pub fn message_error(message: &str) -> (e: CliError)
    ensures
        e@ == CliErrorView::InvalidArgs("invalid message: "@ + message@),
{
    invalid_args("invalid message: ".to_owned().concat(message))
}

/// The error for a text that is no sign-in message.
pub fn parse_error(message: &str) -> (e: CliError)
    ensures
        e@ == CliErrorView::InvalidArgs("invalid CAIP-122 message: "@ + message@),
{
    invalid_args("invalid CAIP-122 message: ".to_owned().concat(message))
}

/// The error for a signature that does not verify.
pub fn verification_error(message: &str) -> (e: CliError)
    ensures
        e@ == CliErrorView::InvalidArgs("verification failed: "@ + message@),
{
    invalid_args("verification failed: ".to_owned().concat(message))
}

/// The nonce that was drawn, or the error for a length that no nonce has.
pub fn run_nonce(drawn: &Result<String, String>) -> (r: Result<String, CliError>)
    ensures
        text_result(r) == match *drawn {
            Ok(n) => Ok(n@),
            Err(m) => Err(CliErrorView::InvalidArgs("invalid nonce length: "@ + m@)),
        },
{
    match drawn {
        Ok(n) => Ok(n.clone()),
        Err(m) => Err(invalid_args("invalid nonce length: ".to_owned().concat(m.as_str()))),
    }
}

/// A chain is a namespace and a reference around its first colon; `eip155` is
/// the EVM and `solana` is Solana, and no other namespace is accepted.
pub proof fn law_chains_are_namespace_and_reference(name: Seq<char>, reference: Seq<char>)
    requires
        !name.contains(':'),
    ensures
        name == "eip155"@ ==> chain_of(name + seq![':'] + reference) == Ok::<
            (Namespace, Seq<char>),
            CliErrorView,
        >((Namespace::Evm, reference)),
        name == "solana"@ ==> chain_of(name + seq![':'] + reference) == Ok::<
            (Namespace, Seq<char>),
            CliErrorView,
        >((Namespace::Solana, reference)),
        name != "eip155"@ && name != "solana"@ ==> chain_of(name + seq![':'] + reference) is Err,
        chain_of(name) is Err,
{
    law_sides_are_cut_apart(name, ':', reference);
    law_cutting_gives_both_sides(name, ':');
    reveal_strlit("eip155");
    reveal_strlit("solana");
    assert("eip155"@[0] == 'e' && "solana"@[0] == 's');
}

/// The hexadecimal text of bytes, with or without `0x`, is a signature of these
/// bytes on every chain; on an EVM chain nothing but hexadecimal is one.
pub proof fn law_signatures_are_read_back(b: Seq<u8>, namespace: Seq<char>, s: Seq<char>)
    ensures
        signature_of("0x"@ + hex_text(b), namespace) == Ok::<Seq<u8>, CliErrorView>(b),
        signature_of(hex_text(b), namespace) == Ok::<Seq<u8>, CliErrorView>(b),
        namespace != "solana"@ ==> (signature_of(s, namespace) is Ok <==> is_hex(without_0x(s))),
        namespace == "solana"@ && !is_hex(without_0x(s)) ==> (signature_of(s, namespace) matches Ok(
            x,
        ) ==> base58_bytes(s) == Ok::<Seq<u8>, Seq<char>>(x)),
{
    law_hex_round_trips(b);
    reveal_strlit("0x");
    let t = hex_text(b);
    assert("0x"@.is_prefix_of("0x"@ + t));
    assert(("0x"@ + t).skip(2) =~= t);
    if "0x"@.is_prefix_of(t) {
        assert(t[1] == "0x"@[1]);
        assert(hex_digit(t[1]) is Some);
    }
}

/// A message comes from exactly one of the flag and the file; that of a file is
/// its text without line breaks at the end.
pub proof fn law_messages_have_one_source(message: Option<Seq<char>>, file: Option<FileRead>)
    ensures
        loaded_message(message, file) is Ok <==> (message is Some && file is None) || (
        message is None && (file matches Some(f) && f.content is Ok)),
        message is Some && file is None ==> loaded_message(message, file) == Ok::<
            Seq<char>,
            CliErrorView,
        >(message->0),
        message is None && file is Some && file->0.content is Ok ==> {
            let c = file->0.content->Ok_0@;
            loaded_message(message, file) matches Ok(t) && t.is_prefix_of(c) && (t.len() > 0
                ==> t.last() != '\n' && t.last() != '\r') && (forall|i: int|
                t.len() <= i < c.len() ==> (#[trigger] c[i] == '\n' || c[i] == '\r'))
        },
{
    if message is None && file is Some && file->0.content is Ok {
        let c = file->0.content->Ok_0@;
        let set = seq!['\n', '\r'];
        law_trimmed_ends_are_of_the_set(c, set);
        let t = trim_end_of(c, set);
        assert(set[0] == '\n' && set[1] == '\r');
        assert(set.contains('\n') && set.contains('\r'));
        assert forall|x: char| set.contains(x) implies x == '\n' || x == '\r' by {}
        assert forall|i: int| t.len() <= i < c.len() implies (#[trigger] c[i] == '\n' || c[i]
            == '\r') by {
            assert(set.contains(c[i]));
        }
    }
}

/// The document of a message that was built and that of one that was parsed
/// agree on what both show, and tell the three times apart.
pub proof fn law_documents_show_the_message(
    built: serde_json::Value,
    shown: serde_json::Value,
    chain: Seq<char>,
    text: Seq<char>,
    m: ParsedMessage,
)
    requires
        is_message_document(built, chain, text, m),
        is_parsed_document(shown, m),
    ensures
        at(built, "message"@) == Some(json_text(text)),
        at(built, "chain"@) == Some(json_text(chain)),
        at(built, "address"@) == Some(json_text(m.address@)),
        at(built, "domain"@) == Some(json_text(m.domain@)),
        at(built, "uri"@) == Some(json_text(m.uri@)),
        at(built, "nonce"@) == Some(json_text(m.nonce@)),
        at(built, "chain_id"@) == Some(json_text(m.chain_id@)),
        at(built, "issued_at"@) == Some(json_text(m.issued_at@)),
        at(shown, "address"@) == at(built, "address"@),
        at(shown, "domain"@) == at(built, "domain"@),
        at(shown, "uri"@) == at(built, "uri"@),
        at(shown, "version"@) == at(built, "version"@),
        at(shown, "nonce"@) == at(built, "nonce"@),
        at(shown, "chain_id"@) == at(built, "chain_id"@),
        at(shown, "issued_at"@) == at(built, "issued_at"@),
        opt_text(m.expiration_time) matches Some(t) ==> at(built, "expiration_time"@) == Some(
            json_text(t),
        ) && at(shown, "expiration_time"@) == Some(json_text(t)),
        opt_text(m.not_before) matches Some(t) ==> at(built, "not_before"@) == Some(json_text(t))
            && at(shown, "not_before"@) == Some(json_text(t)),
        opt_text(m.statement) matches Some(t) ==> at(shown, "statement"@) == Some(json_text(t)),
        opt_text(m.request_id) matches Some(t) ==> at(shown, "request_id"@) == Some(json_text(t)),
        opt_text(m.chain_name) matches Some(t) ==> at(shown, "chain_name"@) == Some(json_text(t)),
        m.expiration_time is None ==> (at(built, "expiration_time"@) matches Some(x)
            && json_is_null(x)),
        m.not_before is None ==> (at(built, "not_before"@) matches Some(x) && json_is_null(x)),
{
}

/// What is said of a signature that was verified is true, on the chain that was
/// asked for, of the message's own domain and address.
pub proof fn law_verified_documents_name_the_signer(
    v: serde_json::Value,
    chain: Seq<char>,
    m: ParsedMessage,
)
    requires
        is_verified_document(v, chain, m),
    ensures
        at(v, "valid"@) == Some(json_of(SettingView::Flag(true))),
        at(v, "chain"@) == Some(json_text(chain)),
        at(v, "domain"@) == Some(json_text(m.domain@)),
        at(v, "address"@) == Some(json_text(m.address@)),
{
}

/// Each field of a parsed message is shown behind its own label.
pub proof fn law_lines_are_labelled(m: ParsedMessage)
    ensures
        parsed_lines(m).len() >= 13,
        parsed_lines(m)[0] == "domain:          "@ + m.domain@,
        parsed_lines(m)[1] == "address:         "@ + m.address@,
        parsed_lines(m)[2] == "uri:             "@ + m.uri@,
        parsed_lines(m)[7] == "nonce:           "@ + m.nonce@,
        parsed_lines(m)[8] == "issued_at:       "@ + m.issued_at@,
        opt_text(m.expiration_time) matches Some(t) ==> parsed_lines(m)[9] == "expiration_time: "@
            + t,
        opt_text(m.not_before) matches Some(t) ==> parsed_lines(m)[10] == "not_before:      "@ + t,
        m.expiration_time is None ==> parsed_lines(m)[9] == "expiration_time: "@ + "(none)"@,
        m.not_before is None ==> parsed_lines(m)[10] == "not_before:      "@ + "(none)"@,
        parsed_lines(m).len() == if m.resources@.len() == 0 {
            13
        } else {
            13 + m.resources@.len()
        },
{
}

/// A chain is named after what stands before its colon, and each part of a message
/// after its argument.
pub proof fn law_parts_have_the_names_of_their_arguments(
    name: Seq<char>,
    reference: Seq<char>,
    p: PartView,
)
    requires
        !name.contains(':'),
    ensures
        namespace_name(name + seq![':'] + reference) == name,
        p is Statement ==> part_label(p) == "statement"@,
        p is IssuedAt ==> part_label(p) == "issued-at"@,
        p is ExpirationTime ==> part_label(p) == "expiration-time"@,
        p is NotBefore ==> part_label(p) == "not-before"@,
        p is RequestId ==> part_label(p) == "request-id"@,
        p is Resources ==> part_label(p) == "resources"@,
{
    law_sides_are_cut_apart(name, ':', reference);
}

/// What is read of the value in a contract is the value itself, each part under its
/// own name.
pub proof fn law_part_views_keep_each_value(x: Part)
    ensures
        x matches Part::Statement(s) ==> x@ == PartView::Statement(s@),
        x matches Part::IssuedAt(s) ==> x@ == PartView::IssuedAt(s@),
        x matches Part::ExpirationTime(s) ==> x@ == PartView::ExpirationTime(s@),
        x matches Part::NotBefore(s) ==> x@ == PartView::NotBefore(s@),
        x matches Part::RequestId(s) ==> x@ == PartView::RequestId(s@),
        x matches Part::Resources(v) ==> x@ == PartView::Resources(texts(v@)),
{
}

/// What is read of the value in a contract is the value itself, each part under its
/// own name.
pub proof fn law_expected_views_keep_each_value(x: Expected)
    ensures
        x@.domain == x.domain@,
        x@.nonce == x.nonce@,
        x@.uri == opt_text(x.uri),
        x@.scheme == opt_text(x.scheme),
        x@.chain_id == opt_text(x.chain_id),
{
}

/// Every resource has a line of its own below a heading; that there are none is said.
pub proof fn law_resources_are_listed(v: Seq<Seq<char>>, i: int)
    ensures
        v.len() == 0 ==> resource_lines(v) == seq!["resources:       (none)"@],
        0 <= i < v.len() ==> resource_lines(v).len() == v.len() + 1 && resource_lines(v)[0]
            == "resources:"@ && resource_lines(v)[i + 1] == "  - "@ + v[i],
{
}

} // verus!
