//! `intent`: what an agent wants done, described in JSON.
//!
//! An intent is parsed, simulated, shown for confirmation unless that is
//! waived, and executed; the gas may be paid by a sponsor.
use vstd::prelude::*;

use crate::error::{invalid, invalid_args, CliError, CliErrorView};
use crate::json::{json_document, json_string_at, parse, string_at};
use crate::text::{
    ascii_lower, clone_opt, join, joined, opt_text, same, texts, to_ascii_lower, trim, trimmed,
};

verus! {

/// Who pays the gas.
#[derive(Clone, Copy, Debug, PartialEq, Eq, Structural)]
pub enum SponsorMode {
    Native,
    Sponsored,
    PayInUsdc,
}

/// The sponsor mode of a word in lower case.
pub open spec fn sponsor_of(s: Seq<char>) -> Option<SponsorMode> {
    if s == "native"@ || s == ""@ {
        Some(SponsorMode::Native)
    } else if s == "sponsored"@ {
        Some(SponsorMode::Sponsored)
    } else if s == "payin-usdc"@ || s == "payin_usdc"@ || s == "usdc"@ {
        Some(SponsorMode::PayInUsdc)
    } else {
        None
    }
}

/// The error for a word that is no sponsor mode.
pub open spec fn sponsor_error(s: Seq<char>) -> CliErrorView {
    CliErrorView::InvalidArgs(
        "invalid --sponsor value: '"@ + ascii_lower(s)
            + "' (expected native|sponsored|payin-usdc)"@,
    )
}

/// The sponsor mode that `s` names, in any case; nothing is `native`.
pub fn parse_sponsor_mode(s: &str) -> (r: Result<SponsorMode, CliError>)
    ensures
        match r {
            Ok(m) => sponsor_of(ascii_lower(s@)) == Some(m),
            Err(e) => sponsor_of(ascii_lower(s@)) is None && e@ == sponsor_error(s@),
        },
{
    let word = to_ascii_lower(s);
    let w = word.as_str();
    if same(w, "native") || same(w, "") {
        Ok(SponsorMode::Native)
    } else if same(w, "sponsored") {
        Ok(SponsorMode::Sponsored)
    } else if same(w, "payin-usdc") || same(w, "payin_usdc") || same(w, "usdc") {
        Ok(SponsorMode::PayInUsdc)
    } else {
        Err(
            invalid_args(
                "invalid --sponsor value: '".to_owned().concat(w).concat(
                    "' (expected native|sponsored|payin-usdc)",
                ),
            ),
        )
    }
}

/// How the text of a message is encoded.
#[derive(Clone, Copy, Debug, PartialEq, Eq, Structural)]
pub enum MessageEncoding {
    Utf8,
    Hex,
}

/// What an agent wants done.
#[derive(Debug)]
pub enum IntentKind {
    Pay { amount: String, recipient: String, token: Option<String> },
    SignTransaction { tx_hex: String, chain_id: String },
    SignMessage { message: String, encoding: MessageEncoding },
    CrossChainTransfer {
        amount: String,
        asset: String,
        from_chain: String,
        to_chain: String,
        recipient: String,
    },
}

/// [`IntentKind`] with its texts as sequences of characters.
pub enum IntentView {
    Pay { amount: Seq<char>, recipient: Seq<char>, token: Option<Seq<char>> },
    SignTransaction { tx_hex: Seq<char>, chain_id: Seq<char> },
    SignMessage { message: Seq<char>, encoding: MessageEncoding },
    CrossChainTransfer {
        amount: Seq<char>,
        asset: Seq<char>,
        from_chain: Seq<char>,
        to_chain: Seq<char>,
        recipient: Seq<char>,
    },
}

impl View for IntentKind {
    type V = IntentView;

    open spec fn view(&self) -> IntentView {
        match *self {
            IntentKind::Pay { amount, recipient, token } => IntentView::Pay {
                amount: amount@,
                recipient: recipient@,
                token: opt_text(token),
            },
            IntentKind::SignTransaction { tx_hex, chain_id } => IntentView::SignTransaction {
                tx_hex: tx_hex@,
                chain_id: chain_id@,
            },
            IntentKind::SignMessage { message, encoding } => IntentView::SignMessage {
                message: message@,
                encoding,
            },
            IntentKind::CrossChainTransfer { amount, asset, from_chain, to_chain, recipient } =>
                IntentView::CrossChainTransfer {
                amount: amount@,
                asset: asset@,
                from_chain: from_chain@,
                to_chain: to_chain@,
                recipient: recipient@,
            },
        }
    }
}

/// The text fields of an intent document; a field is absent when the document
/// has no text there.
#[derive(Debug)]
pub struct IntentFields {
    pub kind: Option<String>,
    pub amount: Option<String>,
    pub recipient: Option<String>,
    pub token: Option<String>,
    pub tx_hex: Option<String>,
    pub chain_id: Option<String>,
    pub message: Option<String>,
    pub encoding: Option<String>,
    pub asset: Option<String>,
    pub from_chain: Option<String>,
    pub to_chain: Option<String>,
}

/// [`IntentFields`] with its texts as sequences of characters.
pub struct FieldsView {
    pub kind: Option<Seq<char>>,
    pub amount: Option<Seq<char>>,
    pub recipient: Option<Seq<char>>,
    pub token: Option<Seq<char>>,
    pub tx_hex: Option<Seq<char>>,
    pub chain_id: Option<Seq<char>>,
    pub message: Option<Seq<char>>,
    pub encoding: Option<Seq<char>>,
    pub asset: Option<Seq<char>>,
    pub from_chain: Option<Seq<char>>,
    pub to_chain: Option<Seq<char>>,
}

impl View for IntentFields {
    type V = FieldsView;

    open spec fn view(&self) -> FieldsView {
        FieldsView {
            kind: opt_text(self.kind),
            amount: opt_text(self.amount),
            recipient: opt_text(self.recipient),
            token: opt_text(self.token),
            tx_hex: opt_text(self.tx_hex),
            chain_id: opt_text(self.chain_id),
            message: opt_text(self.message),
            encoding: opt_text(self.encoding),
            asset: opt_text(self.asset),
            from_chain: opt_text(self.from_chain),
            to_chain: opt_text(self.to_chain),
        }
    }
}

/// The error for a field that an intent needs.
pub open spec fn needs(kind: Seq<char>, field: Seq<char>) -> CliErrorView {
    CliErrorView::InvalidArgs(kind + " intent requires \""@ + field + "\" string"@)
}

/// The payment that the fields describe.
pub open spec fn pay_of(f: FieldsView) -> Result<IntentView, CliErrorView> {
    match (f.amount, f.recipient) {
        (None, _) => Err(needs("Pay"@, "amount"@)),
        (_, None) => Err(needs("Pay"@, "recipient"@)),
        (Some(amount), Some(recipient)) => Ok(
            IntentView::Pay { amount, recipient, token: f.token },
        ),
    }
}

/// The transaction that the fields describe.
pub open spec fn transaction_of(f: FieldsView) -> Result<IntentView, CliErrorView> {
    match (f.tx_hex, f.chain_id) {
        (None, _) => Err(needs("SignTransaction"@, "tx_hex"@)),
        (_, None) => Err(needs("SignTransaction"@, "chain_id"@)),
        (Some(tx_hex), Some(chain_id)) => Ok(IntentView::SignTransaction { tx_hex, chain_id }),
    }
}

/// The message that the fields describe; without an encoding it is UTF-8.
pub open spec fn message_of(f: FieldsView) -> Result<IntentView, CliErrorView> {
    match f.message {
        None => Err(needs("SignMessage"@, "message"@)),
        Some(message) => {
            let encoding = match f.encoding {
                Some(e) => e,
                None => "utf8"@,
            };
            if encoding == "utf8"@ {
                Ok(IntentView::SignMessage { message, encoding: MessageEncoding::Utf8 })
            } else if encoding == "hex"@ {
                Ok(IntentView::SignMessage { message, encoding: MessageEncoding::Hex })
            } else {
                Err(
                    CliErrorView::InvalidArgs(
                        "invalid encoding '"@ + encoding + "' (expected utf8|hex)"@,
                    ),
                )
            }
        },
    }
}

/// The transfer that the fields describe.
pub open spec fn transfer_of(f: FieldsView) -> Result<IntentView, CliErrorView> {
    let k = "CrossChainTransfer"@;
    if f.amount is None {
        Err(needs(k, "amount"@))
    } else if f.asset is None {
        Err(needs(k, "asset"@))
    } else if f.from_chain is None {
        Err(needs(k, "from_chain"@))
    } else if f.to_chain is None {
        Err(needs(k, "to_chain"@))
    } else if f.recipient is None {
        Err(needs(k, "recipient"@))
    } else {
        Ok(
            IntentView::CrossChainTransfer {
                amount: f.amount->0,
                asset: f.asset->0,
                from_chain: f.from_chain->0,
                to_chain: f.to_chain->0,
                recipient: f.recipient->0,
            },
        )
    }
}

/// The intent that the fields describe.
pub open spec fn intent_of(f: FieldsView) -> Result<IntentView, CliErrorView> {
    match f.kind {
        None => Err(
            CliErrorView::InvalidArgs(
                "intent JSON must have a \"type\" field (Pay|SignTransaction|SignMessage|CrossChainTransfer)"@,
            ),
        ),
        Some(kind) => if kind == "Pay"@ {
            pay_of(f)
        } else if kind == "SignTransaction"@ {
            transaction_of(f)
        } else if kind == "SignMessage"@ {
            message_of(f)
        } else if kind == "CrossChainTransfer"@ {
            transfer_of(f)
        } else {
            Err(
                CliErrorView::InvalidArgs(
                    "unknown intent type: '"@ + kind
                        + "' (expected Pay|SignTransaction|SignMessage|CrossChainTransfer)"@,
                ),
            )
        },
    }
}

/// The views of an intent or an error.
pub open spec fn intent_result(r: Result<IntentKind, CliError>) -> Result<
    IntentView,
    CliErrorView,
> {
    match r {
        Ok(k) => Ok(k@),
        Err(e) => Err(e@),
    }
}

fn need(kind: &str, field: &str, value: &Option<String>) -> (r: Result<String, CliError>)
    ensures
        match r {
            Ok(s) => opt_text(*value) == Some(s@),
            Err(e) => value is None && e@ == needs(kind@, field@),
        },
{
    match value {
        Some(s) => Ok(s.clone()),
        None => Err(
            invalid_args(
                kind.to_owned().concat(" intent requires \"").concat(field).concat("\" string"),
            ),
        ),
    }
}

fn read_pay(f: &IntentFields) -> (r: Result<IntentKind, CliError>)
    ensures
        intent_result(r) == pay_of(f@),
{
    let amount = match need("Pay", "amount", &f.amount) {
        Ok(s) => s,
        Err(e) => return Err(e),
    };
    let recipient = match need("Pay", "recipient", &f.recipient) {
        Ok(s) => s,
        Err(e) => return Err(e),
    };
    Ok(IntentKind::Pay { amount, recipient, token: clone_opt(&f.token) })
}

fn read_transaction(f: &IntentFields) -> (r: Result<IntentKind, CliError>)
    ensures
        intent_result(r) == transaction_of(f@),
{
    let tx_hex = match need("SignTransaction", "tx_hex", &f.tx_hex) {
        Ok(s) => s,
        Err(e) => return Err(e),
    };
    let chain_id = match need("SignTransaction", "chain_id", &f.chain_id) {
        Ok(s) => s,
        Err(e) => return Err(e),
    };
    Ok(IntentKind::SignTransaction { tx_hex, chain_id })
}

fn read_message(f: &IntentFields) -> (r: Result<IntentKind, CliError>)
    ensures
        intent_result(r) == message_of(f@),
{
    let message = match need("SignMessage", "message", &f.message) {
        Ok(s) => s,
        Err(e) => return Err(e),
    };
    let encoding = match &f.encoding {
        Some(e) => e.as_str(),
        None => "utf8",
    };
    if same(encoding, "utf8") {
        Ok(IntentKind::SignMessage { message, encoding: MessageEncoding::Utf8 })
    } else if same(encoding, "hex") {
        Ok(IntentKind::SignMessage { message, encoding: MessageEncoding::Hex })
    } else {
        Err(
            invalid_args(
                "invalid encoding '".to_owned().concat(encoding).concat("' (expected utf8|hex)"),
            ),
        )
    }
}

fn read_transfer(f: &IntentFields) -> (r: Result<IntentKind, CliError>)
    ensures
        intent_result(r) == transfer_of(f@),
{
    let k = "CrossChainTransfer";
    let amount = match need(k, "amount", &f.amount) {
        Ok(s) => s,
        Err(e) => return Err(e),
    };
    let asset = match need(k, "asset", &f.asset) {
        Ok(s) => s,
        Err(e) => return Err(e),
    };
    let from_chain = match need(k, "from_chain", &f.from_chain) {
        Ok(s) => s,
        Err(e) => return Err(e),
    };
    let to_chain = match need(k, "to_chain", &f.to_chain) {
        Ok(s) => s,
        Err(e) => return Err(e),
    };
    let recipient = match need(k, "recipient", &f.recipient) {
        Ok(s) => s,
        Err(e) => return Err(e),
    };
    Ok(IntentKind::CrossChainTransfer { amount, asset, from_chain, to_chain, recipient })
}

/// The intent that the fields of a document describe.
pub fn intent_from_fields(f: &IntentFields) -> (r: Result<IntentKind, CliError>)
    ensures
        intent_result(r) == intent_of(f@),
{
    match &f.kind {
        None => Err(
            invalid(
                "intent JSON must have a \"type\" field (Pay|SignTransaction|SignMessage|CrossChainTransfer)",
            ),
        ),
        Some(kind) => {
            let kind = kind.as_str();
            if same(kind, "Pay") {
                read_pay(f)
            } else if same(kind, "SignTransaction") {
                read_transaction(f)
            } else if same(kind, "SignMessage") {
                read_message(f)
            } else if same(kind, "CrossChainTransfer") {
                read_transfer(f)
            } else {
                Err(
                    invalid_args(
                        "unknown intent type: '".to_owned().concat(kind).concat(
                            "' (expected Pay|SignTransaction|SignMessage|CrossChainTransfer)",
                        ),
                    ),
                )
            }
        },
    }
}

/// The text fields of a document.
pub open spec fn fields_of(v: serde_json::Value) -> FieldsView {
    FieldsView {
        kind: json_string_at(v, "/type"@),
        amount: json_string_at(v, "/amount"@),
        recipient: json_string_at(v, "/recipient"@),
        token: json_string_at(v, "/token"@),
        tx_hex: json_string_at(v, "/tx_hex"@),
        chain_id: json_string_at(v, "/chain_id"@),
        message: json_string_at(v, "/message"@),
        encoding: json_string_at(v, "/encoding"@),
        asset: json_string_at(v, "/asset"@),
        from_chain: json_string_at(v, "/from_chain"@),
        to_chain: json_string_at(v, "/to_chain"@),
    }
}

fn read_fields(v: &serde_json::Value) -> (r: IntentFields)
    ensures
        r@ == fields_of(*v),
{
    IntentFields {
        kind: string_at(v, "/type"),
        amount: string_at(v, "/amount"),
        recipient: string_at(v, "/recipient"),
        token: string_at(v, "/token"),
        tx_hex: string_at(v, "/tx_hex"),
        chain_id: string_at(v, "/chain_id"),
        message: string_at(v, "/message"),
        encoding: string_at(v, "/encoding"),
        asset: string_at(v, "/asset"),
        from_chain: string_at(v, "/from_chain"),
        to_chain: string_at(v, "/to_chain"),
    }
}

/// What an intent document means.
pub open spec fn intent_text(json: Seq<char>) -> Result<IntentView, CliErrorView> {
    match json_document(json) {
        Err(fault) => Err(CliErrorView::InvalidArgs("invalid intent JSON: "@ + fault)),
        Ok(v) => intent_of(fields_of(v)),
    }
}

/// A document holds an intent: each field of the intent is the text that the
/// document has under the key of the same name, and the type names the intent.
pub open spec fn document_holds(v: serde_json::Value, k: IntentView) -> bool {
    match k {
        IntentView::Pay { amount, recipient, token } => {
            &&& json_string_at(v, "/type"@) == Some("Pay"@)
            &&& json_string_at(v, "/amount"@) == Some(amount)
            &&& json_string_at(v, "/recipient"@) == Some(recipient)
            &&& json_string_at(v, "/token"@) == token
        },
        IntentView::SignTransaction { tx_hex, chain_id } => {
            &&& json_string_at(v, "/type"@) == Some("SignTransaction"@)
            &&& json_string_at(v, "/tx_hex"@) == Some(tx_hex)
            &&& json_string_at(v, "/chain_id"@) == Some(chain_id)
        },
        IntentView::SignMessage { message, encoding } => {
            &&& json_string_at(v, "/type"@) == Some("SignMessage"@)
            &&& json_string_at(v, "/message"@) == Some(message)
            &&& encoding == MessageEncoding::Hex <==> json_string_at(v, "/encoding"@) == Some(
                "hex"@,
            )
            &&& encoding == MessageEncoding::Utf8 ==> (json_string_at(v, "/encoding"@) is None
                || json_string_at(v, "/encoding"@) == Some("utf8"@))
        },
        IntentView::CrossChainTransfer { amount, asset, from_chain, to_chain, recipient } => {
            &&& json_string_at(v, "/type"@) == Some("CrossChainTransfer"@)
            &&& json_string_at(v, "/amount"@) == Some(amount)
            &&& json_string_at(v, "/asset"@) == Some(asset)
            &&& json_string_at(v, "/from_chain"@) == Some(from_chain)
            &&& json_string_at(v, "/to_chain"@) == Some(to_chain)
            &&& json_string_at(v, "/recipient"@) == Some(recipient)
        },
    }
}

proof fn lemma_intent_words_differ()
    ensures
        "utf8"@ != "hex"@,
        "Pay"@ != "SignTransaction"@,
        "Pay"@ != "SignMessage"@,
        "Pay"@ != "CrossChainTransfer"@,
        "SignTransaction"@ != "SignMessage"@,
        "SignTransaction"@ != "CrossChainTransfer"@,
        "SignMessage"@ != "CrossChainTransfer"@,
{
    reveal_strlit("utf8");
    reveal_strlit("hex");
    reveal_strlit("Pay");
    reveal_strlit("SignTransaction");
    reveal_strlit("SignMessage");
    reveal_strlit("CrossChainTransfer");
    assert("utf8"@.len() == 4 && "hex"@.len() == 3);
    assert("Pay"@.len() == 3 && "SignTransaction"@.len() == 15);
    assert("SignMessage"@.len() == 11 && "CrossChainTransfer"@.len() == 18);
}

/// An intent that is parsed is one that the document holds.
pub proof fn law_parsed_intents_are_in_the_document(json: Seq<char>)
    ensures
        intent_text(json) matches Ok(k) ==> (json_document(json) matches Ok(v) && document_holds(
            v,
            k,
        )),
{
    lemma_intent_words_differ();
}

/// An intent that a document holds is the one that is parsed: nothing that is
/// complete is refused, and no document holds two intents.
pub proof fn law_intents_in_a_document_are_parsed(json: Seq<char>, k: IntentView)
    requires
        json_document(json) matches Ok(v) && document_holds(v, k),
    ensures
        intent_text(json) == Ok::<IntentView, CliErrorView>(k),
{
    lemma_intent_words_differ();
}

/// The intent in a JSON text.
pub fn parse_intent_kind(json_str: &str) -> (r: Result<IntentKind, CliError>)
    ensures
        intent_result(r) == intent_text(json_str@),
        r matches Ok(k) ==> (json_document(json_str@) matches Ok(v) && document_holds(v, k@)),
{
    proof {
        law_parsed_intents_are_in_the_document(json_str@);
    }
    match parse(json_str) {
        Err(e) => Err(invalid_args("invalid intent JSON: ".to_owned().concat(e.as_str()))),
        Ok(v) => {
            let f = read_fields(&v);
            intent_from_fields(&f)
        },
    }
}

/// Whether the answer to a question is yes. Nobody at the terminal, and a line
/// that could not be read, are a no.
pub fn prompt_yes_no(terminal: bool, line: &Option<String>) -> (r: bool)
    ensures
        r == (terminal && (line matches Some(l) && {
            let word = ascii_lower(trim(l@));
            word == "y"@ || word == "yes"@
        })),
{
    if !terminal {
        return false;
    }
    match line {
        None => false,
        Some(l) => {
            let word = to_ascii_lower(trimmed(l.as_str()).as_str());
            same(word.as_str(), "y") || same(word.as_str(), "yes")
        },
    }
}

/// The question as it is shown.
pub fn prompt_text(prompt: &str, terminal: bool) -> (r: String)
    ensures
        r@ == if terminal {
            prompt@ + " [y/N] "@
        } else {
            prompt@ + " [y/N] (non-interactive; pass --yes to confirm)\n"@
        },
{
    if terminal {
        prompt.to_owned().concat(" [y/N] ")
    } else {
        prompt.to_owned().concat(" [y/N] (non-interactive; pass --yes to confirm)\n")
    }
}

/// The summary of a simulation, put as a question. The costs come as they are
/// shown.
pub fn confirmation(summary: &str, gas: &str, total: &str, warnings: &Vec<String>) -> (r: String)
    ensures
        r@ == summary@ + "\n  gas: $"@ + gas@ + ", total: $"@ + total@ + "\n  warnings: "@ + (if warnings@.len() == 0 {
            "none"@
        } else {
            join(texts(warnings@), "; "@)
        }) + "\nConfirm?"@,
{
    let listed = if warnings.len() == 0 {
        "none".to_owned()
    } else {
        joined(warnings, "; ")
    };
    summary.to_owned().concat("\n  gas: $").concat(gas).concat(", total: $").concat(total).concat(
        "\n  warnings: ",
    ).concat(listed.as_str()).concat("\nConfirm?")
}

/// An intent that passed its checks, with how it is to be run.
#[derive(Debug)]
pub struct IntentPlan {
    pub kind: IntentKind,
    pub chain_id: String,
    pub session_key_id: String,
    pub sponsor: SponsorMode,
    pub rpc_url: Option<String>,
}

/// What is wrong with a submission: the intent first, then the sponsor.
pub open spec fn submission(json: Seq<char>, sponsor: Seq<char>) -> Result<
    (IntentView, SponsorMode),
    CliErrorView,
> {
    match intent_text(json) {
        Err(e) => Err(e),
        Ok(k) => match sponsor_of(ascii_lower(sponsor)) {
            Some(m) => Ok((k, m)),
            None => Err(sponsor_error(sponsor)),
        },
    }
}

/// An intent to execute, from its arguments.
pub fn run_execute(
    json: &str,
    chain_id: &str,
    session_key_id: &str,
    sponsor: &str,
    rpc_url: &Option<String>,
) -> (r: Result<IntentPlan, CliError>)
    ensures
        match r {
            Ok(p) => submission(json@, sponsor@) == Ok::<
                (IntentView, SponsorMode),
                CliErrorView,
            >((p.kind@, p.sponsor)) && p.chain_id@ == chain_id@ && p.session_key_id@
                == session_key_id@ && opt_text(p.rpc_url) == opt_text(*rpc_url),
            Err(e) => submission(json@, sponsor@) == Err::<
                (IntentView, SponsorMode),
                CliErrorView,
            >(e@),
        },
{
    let kind = match parse_intent_kind(json) {
        Ok(k) => k,
        Err(e) => return Err(e),
    };
    let sponsor = match parse_sponsor_mode(sponsor) {
        Ok(m) => m,
        Err(e) => return Err(e),
    };
    Ok(
        IntentPlan {
            kind,
            chain_id: chain_id.to_owned(),
            session_key_id: session_key_id.to_owned(),
            sponsor,
            rpc_url: clone_opt(rpc_url),
        },
    )
}

/// An intent to simulate, from its arguments.
pub fn run_simulate(
    json: &str,
    chain_id: &str,
    session_key_id: &str,
    rpc_url: &Option<String>,
) -> (r: Result<IntentPlan, CliError>)
    ensures
        match r {
            Ok(p) => intent_text(json@) == Ok::<IntentView, CliErrorView>(p.kind@) && p.chain_id@
                == chain_id@ && p.session_key_id@ == session_key_id@ && p.sponsor
                == SponsorMode::Native && opt_text(p.rpc_url) == opt_text(*rpc_url),
            Err(e) => intent_text(json@) == Err::<IntentView, CliErrorView>(e@),
        },
{
    let kind = match parse_intent_kind(json) {
        Ok(k) => k,
        Err(e) => return Err(e),
    };
    Ok(
        IntentPlan {
            kind,
            chain_id: chain_id.to_owned(),
            session_key_id: session_key_id.to_owned(),
            sponsor: SponsorMode::Native,
            rpc_url: clone_opt(rpc_url),
        },
    )
}

/// What becomes of a submitted intent once it was simulated.
#[derive(Debug)]
pub enum Submission {
    Execute(IntentPlan),
    Cancelled,
}

/// The user agreed: by `--yes`, or by a yes at the prompt.
pub open spec fn consented(yes: bool, terminal: bool, line: Option<Seq<char>>) -> bool {
    yes || (terminal && match line {
        Some(l) => {
            let word = ascii_lower(trim(l));
            word == "y"@ || word == "yes"@
        },
        None => false,
    })
}

/// A submitted intent, from its arguments and the line that was typed at the
/// prompt. It is executed only with consent.
pub fn run_submit(
    json: &str,
    chain_id: &str,
    session_key_id: &str,
    sponsor: &str,
    yes: bool,
    rpc_url: &Option<String>,
    terminal: bool,
    line: &Option<String>,
) -> (r: Result<Submission, CliError>)
    ensures
        match r {
            Ok(Submission::Execute(p)) => consented(yes, terminal, opt_text(*line)) && submission(
                json@,
                sponsor@,
            ) == Ok::<(IntentView, SponsorMode), CliErrorView>((p.kind@, p.sponsor))
                && p.chain_id@ == chain_id@ && p.session_key_id@ == session_key_id@ && opt_text(
                p.rpc_url,
            ) == opt_text(*rpc_url),
            Ok(Submission::Cancelled) => !consented(yes, terminal, opt_text(*line)) && submission(
                json@,
                sponsor@,
            ) is Ok,
            Err(e) => submission(json@, sponsor@) == Err::<
                (IntentView, SponsorMode),
                CliErrorView,
            >(e@),
        },
{
    let plan = match run_execute(json, chain_id, session_key_id, sponsor, rpc_url) {
        Ok(p) => p,
        Err(e) => return Err(e),
    };
    if yes || prompt_yes_no(terminal, line) {
        Ok(Submission::Execute(plan))
    } else {
        Ok(Submission::Cancelled)
    }
}

/// What is done about the gas of an executed intent.
#[derive(Debug)]
pub enum SponsorStep {
    /// The result stands as it is.
    Keep,
    /// The result stands, and the user is told why nobody sponsors it.
    Warn(String),
    /// A sponsor is asked, on behalf of this sender.
    Sponsor(String),
}

/// Native gas needs no sponsor; without a paymaster the result stands.
pub fn apply_sponsor_mode(
    mode: SponsorMode,
    paymaster: &Result<(), String>,
    tx_hash: &Option<String>,
) -> (r: SponsorStep)
    ensures
        match r {
            SponsorStep::Keep => mode == SponsorMode::Native,
            SponsorStep::Warn(w) => mode != SponsorMode::Native && (paymaster matches Err(e) && w@
                == "warning: paymaster not configured ("@ + e@
                + "); falling back to native gas"@),
            SponsorStep::Sponsor(s) => mode != SponsorMode::Native && paymaster is Ok && s@
                == match opt_text(*tx_hash) {
                Some(t) => t,
                None => "0x0000000000000000000000000000000000000000"@,
            },
        },
{
    match mode {
        SponsorMode::Native => SponsorStep::Keep,
        _ => match paymaster {
            Err(e) => SponsorStep::Warn(
                "warning: paymaster not configured (".to_owned().concat(e.as_str()).concat(
                    "); falling back to native gas",
                ),
            ),
            Ok(_) => match tx_hash {
                Some(t) => SponsorStep::Sponsor(t.clone()),
                None => SponsorStep::Sponsor(
                    "0x0000000000000000000000000000000000000000".to_owned(),
                ),
            },
        },
    }
}

/// The transaction hash after a sponsor answered: the sponsor's where it gave
/// one, and the original otherwise.
pub fn sponsored_hash(original: &Option<String>, answer: &Result<String, String>) -> (r: Option<
    String,
>)
    ensures
        opt_text(r) == match *answer {
            Ok(h) => if h@.len() > 0 {
                Some(h@)
            } else {
                opt_text(*original)
            },
            Err(_) => opt_text(*original),
        },
{
    match answer {
        Ok(h) => if h.as_str().is_empty() {
            clone_opt(original)
        } else {
            Some(h.clone())
        },
        Err(_) => clone_opt(original),
    }
}

/// The error for an intent that could not be simulated or executed.
pub fn map_intent_error(message: &str) -> (e: CliError)
    ensures
        e@ == CliErrorView::InvalidArgs("intent error: "@ + message@),
{
    invalid_args("intent error: ".to_owned().concat(message))
}

/// Who pays the gas: each mode has its words, and no others are accepted.
pub proof fn law_sponsors_have_their_words(s: Seq<char>)
    ensures
        sponsor_of(s) == Some(SponsorMode::Native) <==> s == "native"@ || s.len() == 0,
        sponsor_of(s) == Some(SponsorMode::Sponsored) <==> s == "sponsored"@,
        sponsor_of(s) == Some(SponsorMode::PayInUsdc) <==> s == "payin-usdc"@ || s == "payin_usdc"@
            || s == "usdc"@,
{
    reveal_strlit("");
    reveal_strlit("native");
    reveal_strlit("sponsored");
    reveal_strlit("payin-usdc");
    reveal_strlit("payin_usdc");
    reveal_strlit("usdc");
    assert("native"@.len() == 6 && "native"@[0] == 'n' && "sponsored"@.len() == 9
        && "sponsored"@[0] == 's' && "payin-usdc"@.len() == 10 && "payin-usdc"@[0] == 'p'
        && "payin_usdc"@.len() == 10 && "payin_usdc"@[0] == 'p' && "usdc"@.len() == 4
        && "usdc"@[0] == 'u');
    assert(s.len() == 0 ==> s =~= ""@);
}

/// A submission is an intent that the text holds and a sponsor that it names;
/// a wrong intent is reported before a wrong sponsor.
pub proof fn law_submissions_need_both(json: Seq<char>, sponsor: Seq<char>)
    ensures
        submission(json, sponsor) is Ok <==> intent_text(json) is Ok && sponsor_of(
            ascii_lower(sponsor),
        ) is Some,
        submission(json, sponsor) matches Ok((k, m)) ==> intent_text(json) == Ok::<
            IntentView,
            CliErrorView,
        >(k) && sponsor_of(ascii_lower(sponsor)) == Some(m),
        intent_text(json) matches Err(e) ==> submission(json, sponsor) == Err::<
            (IntentView, SponsorMode),
            CliErrorView,
        >(e),
{
}

/// Consent is given beforehand, or by typing `y` or `yes` at a terminal, and in no
/// other way.
pub proof fn law_consent_is_explicit(yes: bool, terminal: bool, line: Option<Seq<char>>)
    ensures
        yes ==> consented(yes, terminal, line),
        !yes && !terminal ==> !consented(yes, terminal, line),
        !yes && line is None ==> !consented(yes, terminal, line),
        !yes && terminal ==> (line matches Some(l) ==> (consented(yes, terminal, line)
            <==> ascii_lower(trim(l)) == "y"@ || ascii_lower(trim(l)) == "yes"@)),
{
}

/// What is read of the value in a contract is the value itself, each part under its
/// own name.
pub proof fn law_intent_kind_views_keep_each_value(x: IntentKind)
    ensures
        x matches IntentKind::Pay { amount, recipient, token }
            ==> x@ == (IntentView::Pay { amount: amount@, recipient: recipient@,
            token: opt_text(token) }),
        x matches IntentKind::SignTransaction { tx_hex, chain_id }
            ==> x@ == (IntentView::SignTransaction { tx_hex: tx_hex@, chain_id: chain_id@ }),
        x matches IntentKind::SignMessage { message, encoding }
            ==> x@ == (IntentView::SignMessage { message: message@, encoding }),
        x matches IntentKind::CrossChainTransfer { amount, asset, from_chain, to_chain,
            recipient }
            ==> x@ == (IntentView::CrossChainTransfer { amount: amount@, asset: asset@,
            from_chain: from_chain@, to_chain: to_chain@, recipient: recipient@ }),
{
}

/// What is read of the value in a contract is the value itself, each part under its
/// own name.
pub proof fn law_intent_fields_views_keep_each_value(x: IntentFields)
    ensures
        x@.kind == opt_text(x.kind),
        x@.amount == opt_text(x.amount),
        x@.recipient == opt_text(x.recipient),
        x@.token == opt_text(x.token),
        x@.tx_hex == opt_text(x.tx_hex),
        x@.chain_id == opt_text(x.chain_id),
        x@.message == opt_text(x.message),
        x@.encoding == opt_text(x.encoding),
        x@.asset == opt_text(x.asset),
        x@.from_chain == opt_text(x.from_chain),
        x@.to_chain == opt_text(x.to_chain),
{
}

/// An intent that lacks a field is refused by the name of its kind and of the first
/// field that it lacks.
pub proof fn law_missing_fields_are_named(f: FieldsView, kind: Seq<char>, field: Seq<char>)
    ensures
        needs(kind, field) == CliErrorView::InvalidArgs(
            kind + " intent requires \""@ + field + "\" string"@,
        ),
        f.amount is None ==> pay_of(f) == Err::<IntentView, CliErrorView>(
            needs("Pay"@, "amount"@),
        ),
        f.amount is Some && f.recipient is None ==> pay_of(f) == Err::<IntentView, CliErrorView>(
            needs("Pay"@, "recipient"@),
        ),
        f.tx_hex is None ==> transaction_of(f) == Err::<IntentView, CliErrorView>(
            needs("SignTransaction"@, "tx_hex"@),
        ),
        f.tx_hex is Some && f.chain_id is None ==> transaction_of(f) == Err::<
            IntentView,
            CliErrorView,
        >(needs("SignTransaction"@, "chain_id"@)),
        f.message is None ==> message_of(f) == Err::<IntentView, CliErrorView>(
            needs("SignMessage"@, "message"@),
        ),
        f.amount is None ==> transfer_of(f) == Err::<IntentView, CliErrorView>(
            needs("CrossChainTransfer"@, "amount"@),
        ),
        f.amount is Some && f.asset is None ==> transfer_of(f) == Err::<IntentView, CliErrorView>(
            needs("CrossChainTransfer"@, "asset"@),
        ),
        f.amount is Some && f.asset is Some && f.from_chain is Some && f.to_chain is Some
            && f.recipient is None ==> transfer_of(f) == Err::<IntentView, CliErrorView>(
            needs("CrossChainTransfer"@, "recipient"@),
        ),
        f.amount is Some && f.asset is Some && f.from_chain is Some && f.to_chain is None
            ==> transfer_of(f) == Err::<IntentView, CliErrorView>(
            needs("CrossChainTransfer"@, "to_chain"@),
        ),
        f.amount is Some && f.asset is Some && f.from_chain is None ==> transfer_of(f) == Err::<
            IntentView,
            CliErrorView,
        >(needs("CrossChainTransfer"@, "from_chain"@)),
        transfer_of(f) is Ok <==> f.amount is Some && f.asset is Some && f.from_chain is Some
            && f.to_chain is Some && f.recipient is Some,
        pay_of(f) is Ok <==> f.amount is Some && f.recipient is Some,
        transaction_of(f) is Ok <==> f.tx_hex is Some && f.chain_id is Some,
{
}

/// A message is text unless its encoding says that it is digits; no other encoding is
/// accepted.
pub proof fn law_message_encodings(f: FieldsView)
    ensures
        message_of(f) matches Ok(k) ==> (k matches IntentView::SignMessage { message, encoding }
            && f.message == Some(message) && (encoding is Hex <==> f.encoding == Some("hex"@)) && (
        encoding is Utf8 <==> f.encoding is None || f.encoding == Some("utf8"@))),
        f.message is Some ==> (message_of(f) is Ok <==> f.encoding is None || f.encoding == Some(
            "utf8"@,
        ) || f.encoding == Some("hex"@)),
{
    reveal_strlit("utf8");
    reveal_strlit("hex");
    assert("utf8"@.len() == 4 && "utf8"@[0] == 'u' && "hex"@.len() == 3 && "hex"@[0] == 'h');
}

} // verus!
