//! The signer that other programs on the same machine call over JSON-RPC.
//!
//! Every call that signs or shows keys carries an authorization of a passkey
//! that is bound to the configured wallet.
use vstd::prelude::*;

use crate::codec::{
    base64_bytes, base64_decode, base64_encode, base64_text, hex_bytes, hex_decode, hex_encode,
    hex_fault, hex_text, is_hex, strip_0x, without_0x,
};
use crate::commands::sbom::{at, is_text, text_at};
use crate::commands::session_key::PasskeyAuthorization;
use crate::curve::{
    ed_public, ed_public_key, ed_sign, ed_signature, secp_public, secp_public_key,
};
use crate::error::{invalid_args, CliError, CliErrorView};
use crate::json::{
    array, empty_object, is_object, json_is_null, json_items, json_members, json_of, member, null,
    setting_value, signed_value, json_signed, text_value, with_member, Setting, SettingView,
};
use crate::eip1559::{lemma_transaction_is_read_back, read_transaction, Transaction};
use crate::rlp::{
    append, encode_bytes, encode_list, lemma_u128_len, rlp_bytes, rlp_list, rlp_u128, uint_bytes,
};
use crate::text::{
    ascii_lower, dec, decimal, law_parsed_numbers_are_in_range, number_fault, opt_text, parse_u128,
    parse_unsigned, parsed, same, strip_prefix, to_ascii_lower, without_prefix,
};

verus! {

// ---------------------------------------------------------------------------
// Errors
// ---------------------------------------------------------------------------

/// Not a request of this protocol.
pub const INVALID_REQUEST: i32 = -32600;

/// No such method.
pub const METHOD_NOT_FOUND: i32 = -32601;

/// Wrong parameters.
pub const INVALID_PARAMS: i32 = -32602;

/// A failure of the signer.
pub const INTERNAL_ERROR: i32 = -32603;

/// An error in an answer.
#[derive(Debug)]
pub struct RpcError {
    code: i32,
    message: String,
}

/// [`RpcError`] with its text as a sequence of characters.
pub struct RpcErrorView {
    pub code: i32,
    pub message: Seq<char>,
}

impl View for RpcError {
    type V = RpcErrorView;

    closed spec fn view(&self) -> RpcErrorView {
        RpcErrorView { code: self.code, message: self.message@ }
    }
}

impl RpcError {
    /// An error with a code and a message.
    pub fn new(code: i32, message: String) -> (e: RpcError)
        ensures
            e@ == (RpcErrorView { code, message: message@ }),
    {
        RpcError { code, message }
    }

    /// The code.
    pub fn code(&self) -> (r: i32)
        ensures
            r == self@.code,
    {
        self.code
    }

    /// The message.
    pub fn message(&self) -> (r: &str)
        ensures
            r@ == self@.message,
    {
        self.message.as_str()
    }
}

/// A refusal of parameters.
pub open spec fn bad_params(message: Seq<char>) -> RpcErrorView {
    RpcErrorView { code: INVALID_PARAMS, message }
}

/// A failure of the signer.
pub open spec fn internal(message: Seq<char>) -> RpcErrorView {
    RpcErrorView { code: INTERNAL_ERROR, message }
}

fn refuse(message: &str) -> (e: RpcError)
    ensures
        e@ == bad_params(message@),
{
    RpcError::new(INVALID_PARAMS, message.to_owned())
}

fn refuse_text(message: String) -> (e: RpcError)
    ensures
        e@ == bad_params(message@),
{
    RpcError::new(INVALID_PARAMS, message)
}

fn fail_text(message: String) -> (e: RpcError)
    ensures
        e@ == internal(message@),
{
    RpcError::new(INTERNAL_ERROR, message)
}

// ---------------------------------------------------------------------------
// Routing
// ---------------------------------------------------------------------------

/// The methods.
#[derive(Clone, Copy, Debug, PartialEq, Eq, Structural)]
pub enum Method {
    GenerateChallenge,
    Keys,
    Sign,
    SignPayment,
    IntentSimulate,
    IntentExecute,
}

/// The method of a name.
pub open spec fn method_of(name: Seq<char>) -> Option<Method> {
    if name == "ledgerflow_generate_challenge"@ {
        Some(Method::GenerateChallenge)
    } else if name == "ledgerflow_keys"@ {
        Some(Method::Keys)
    } else if name == "ledgerflow_sign"@ {
        Some(Method::Sign)
    } else if name == "ledgerflow_sign_payment"@ {
        Some(Method::SignPayment)
    } else if name == "ledgerflow_intentSimulate"@ {
        Some(Method::IntentSimulate)
    } else if name == "ledgerflow_intentExecute"@ {
        Some(Method::IntentExecute)
    } else {
        None
    }
}

/// A method that touches the keys.
pub open spec fn is_stateful(m: Method) -> bool {
    m == Method::Keys || m == Method::Sign || m == Method::SignPayment || m
        == Method::IntentExecute
}

/// Where a request goes.
#[derive(Clone, Copy, Debug, PartialEq, Eq, Structural)]
pub struct Route {
    pub method: Method,
    /// The request needs an authorization first.
    pub authorize: bool,
}

/// Where a request goes, or why it goes nowhere.
pub open spec fn route_of(version: Seq<char>, name: Seq<char>, params: bool) -> Result<
    Route,
    RpcErrorView,
> {
    if version != "2.0"@ {
        Err(RpcErrorView { code: INVALID_REQUEST, message: "invalid JSON-RPC version"@ })
    } else {
        match method_of(name) {
            None => Err(
                RpcErrorView { code: METHOD_NOT_FOUND, message: "method not found: "@ + name },
            ),
            Some(method) => if !params {
                Err(bad_params("missing params"@))
            } else {
                Ok(Route { method, authorize: is_stateful(method) })
            },
        }
    }
}

fn find_method(name: &str) -> (r: Option<Method>)
    ensures
        r == method_of(name@),
{
    if same(name, "ledgerflow_generate_challenge") {
        Some(Method::GenerateChallenge)
    } else if same(name, "ledgerflow_keys") {
        Some(Method::Keys)
    } else if same(name, "ledgerflow_sign") {
        Some(Method::Sign)
    } else if same(name, "ledgerflow_sign_payment") {
        Some(Method::SignPayment)
    } else if same(name, "ledgerflow_intentSimulate") {
        Some(Method::IntentSimulate)
    } else if same(name, "ledgerflow_intentExecute") {
        Some(Method::IntentExecute)
    } else {
        None
    }
}

/// Where a request goes; `params` is whether it has parameters.
pub fn rpc(version: &str, name: &str, params: bool) -> (r: Result<Route, RpcError>)
    ensures
        match r {
            Ok(route) => route_of(version@, name@, params) == Ok::<Route, RpcErrorView>(route),
            Err(e) => route_of(version@, name@, params) == Err::<Route, RpcErrorView>(e@),
        },
{
    if !same(version, "2.0") {
        return Err(RpcError::new(INVALID_REQUEST, "invalid JSON-RPC version".to_owned()));
    }
    let method = match find_method(name) {
        Some(m) => m,
        None => {
            return Err(
                RpcError::new(METHOD_NOT_FOUND, "method not found: ".to_owned().concat(name)),
            );
        },
    };
    if !params {
        return Err(refuse("missing params"));
    }
    let authorize = match method {
        Method::GenerateChallenge => false,
        Method::Keys => true,
        Method::Sign => true,
        Method::SignPayment => true,
        Method::IntentSimulate => false,
        Method::IntentExecute => true,
    };
    Ok(Route { method, authorize })
}

/// No request reaches a method that touches the keys without an authorization.
pub proof fn law_stateful_methods_are_authorized(version: Seq<char>, name: Seq<char>, params: bool)
    ensures
        route_of(version, name, params) matches Ok(route) ==> (is_stateful(route.method)
            <==> route.authorize),
{
}

// ---------------------------------------------------------------------------
// Answers
// ---------------------------------------------------------------------------

/// `v` answers a request with a result.
pub open spec fn is_success(
    v: serde_json::Value,
    id: serde_json::Value,
    result: serde_json::Value,
) -> bool {
    json_members(v) == Some(
        Map::<Seq<char>, serde_json::Value>::empty().insert(
            "jsonrpc"@,
            json_of(SettingView::Text("2.0"@)),
        ).insert("id"@, id).insert("result"@, result),
    )
}

/// The answer with a result.
pub fn success_response(id: serde_json::Value, result: serde_json::Value) -> (v: serde_json::Value)
    ensures
        is_success(v, id, result),
{
    let doc = with_member(
        empty_object(),
        "jsonrpc",
        setting_value(Setting::Text("2.0".to_owned())),
    );
    let doc = with_member(doc, "id", id);
    with_member(doc, "result", result)
}

/// `v` shows an error.
pub open spec fn is_error_object(v: serde_json::Value, e: RpcErrorView) -> bool {
    json_members(v) == Some(
        Map::<Seq<char>, serde_json::Value>::empty().insert(
            "code"@,
            json_signed(e.code as i64),
        ).insert("message"@, json_of(SettingView::Text(e.message))),
    )
}

/// `v` answers a request with an error.
pub open spec fn is_failure(v: serde_json::Value, id: serde_json::Value, e: RpcErrorView) -> bool {
    &&& json_members(v) matches Some(m)
    &&& m.dom() == set!["jsonrpc"@, "id"@, "error"@]
    &&& m["jsonrpc"@] == json_of(SettingView::Text("2.0"@))
    &&& m["id"@] == id
    &&& is_error_object(m["error"@], e)
}

/// The answer with an error.
pub fn error_response(id: serde_json::Value, err: &RpcError) -> (v: serde_json::Value)
    ensures
        is_failure(v, id, err@),
{
    let e = with_member(empty_object(), "code", signed_value(err.code as i64));
    let e = with_member(e, "message", setting_value(Setting::Text(err.message.clone())));
    let doc = with_member(
        empty_object(),
        "jsonrpc",
        setting_value(Setting::Text("2.0".to_owned())),
    );
    let doc = with_member(doc, "id", id);
    let doc = with_member(doc, "error", e);
    proof {
        reveal_strlit("jsonrpc");
        reveal_strlit("id");
        reveal_strlit("error");
        assert("jsonrpc"@[0] == 'j');
        assert("id"@[0] == 'i');
        assert("error"@[0] == 'e');
        assert(json_members(doc)->0.dom() =~= set!["jsonrpc"@, "id"@, "error"@]);
    }
    doc
}

// ---------------------------------------------------------------------------
// Authorization
// ---------------------------------------------------------------------------

/// The authorization over its texts.
pub struct AuthView {
    pub challenge: Seq<u8>,
    pub signature: Seq<u8>,
    pub credential_id: Seq<char>,
}

/// The authorization over its texts.
pub open spec fn auth_view(a: PasskeyAuthorization) -> AuthView {
    AuthView {
        challenge: a.challenge@,
        signature: a.signature@,
        credential_id: a.credential_id@,
    }
}

/// The authorization that parameters carry.
pub open spec fn auth_of(params: serde_json::Value) -> Result<AuthView, RpcErrorView> {
    let auth = match at(params, "auth"@) {
        Some(a) => if json_members(a) is Some {
            Some(a)
        } else {
            None
        },
        None => None,
    };
    match auth {
        None => Err(bad_params("missing auth"@)),
        Some(a) => match (
            text_at(a, "challenge_hex"@),
            text_at(a, "signature_hex"@),
            text_at(a, "credential_id"@),
        ) {
            (None, _, _) => Err(bad_params("missing auth.challenge_hex"@)),
            (Some(_), None, _) => Err(bad_params("missing auth.signature_hex"@)),
            (Some(_), Some(_), None) => Err(bad_params("missing auth.credential_id"@)),
            (Some(c), Some(s), Some(id)) => if !is_hex(c) {
                Err(bad_params("invalid auth.challenge_hex: "@ + hex_fault(c)))
            } else if !is_hex(s) {
                Err(bad_params("invalid auth.signature_hex: "@ + hex_fault(s)))
            } else {
                Ok(
                    AuthView {
                        challenge: hex_bytes(c),
                        signature: hex_bytes(s),
                        credential_id: id,
                    },
                )
            },
        },
    }
}

fn member_text(v: &serde_json::Value, key: &str) -> (r: Option<String>)
    ensures
        opt_text(r) == text_at(*v, key@),
{
    match member(v, key) {
        Some(x) => text_value(&x),
        None => None,
    }
}

/// The authorization that parameters carry.
pub fn parse_auth(params: &serde_json::Value) -> (r: Result<PasskeyAuthorization, RpcError>)
    ensures
        match r {
            Ok(a) => auth_of(*params) == Ok::<AuthView, RpcErrorView>(auth_view(a)),
            Err(e) => auth_of(*params) == Err::<AuthView, RpcErrorView>(e@),
        },
{
    let auth = match member(params, "auth") {
        Some(a) => a,
        None => return Err(refuse("missing auth")),
    };
    if !is_object(&auth) {
        return Err(refuse("missing auth"));
    }
    let challenge_hex = match member_text(&auth, "challenge_hex") {
        Some(c) => c,
        None => return Err(refuse("missing auth.challenge_hex")),
    };
    let signature_hex = match member_text(&auth, "signature_hex") {
        Some(s) => s,
        None => return Err(refuse("missing auth.signature_hex")),
    };
    let credential_id = match member_text(&auth, "credential_id") {
        Some(id) => id,
        None => return Err(refuse("missing auth.credential_id")),
    };
    let challenge = match hex_decode(challenge_hex.as_str()) {
        Ok(b) => b,
        Err(e) => {
            return Err(
                refuse_text("invalid auth.challenge_hex: ".to_owned().concat(e.as_str())),
            );
        },
    };
    let signature = match hex_decode(signature_hex.as_str()) {
        Ok(b) => b,
        Err(e) => {
            return Err(
                refuse_text("invalid auth.signature_hex: ".to_owned().concat(e.as_str())),
            );
        },
    };
    Ok(PasskeyAuthorization { challenge, signature, credential_id })
}

/// What the store of passkeys holds for a credential.
#[derive(Debug)]
pub enum StoredPasskey {
    /// The store could not be read.
    Failed,
    /// No such credential.
    Missing,
    /// The wallet it is bound to.
    Bound(String),
}

/// The verdict over an authorization whose signature was checked: `checked` is
/// what that gave, and `wallet` the wallet that is configured. Details of
/// internal failures are kept from the caller.
pub open spec fn verdict(
    checked: Result<(), Seq<char>>,
    wallet: Result<Seq<char>, Seq<char>>,
    stored: StoredPasskey,
) -> Result<(), RpcErrorView> {
    match checked {
        Err(m) => Err(bad_params("passkey authorization failed: "@ + m)),
        Ok(_) => match wallet {
            Err(m) => Err(internal(m)),
            Ok(w) => match stored {
                StoredPasskey::Failed => Err(internal("internal error"@)),
                StoredPasskey::Missing => Err(bad_params("passkey not registered"@)),
                StoredPasskey::Bound(b) => if b@ == w {
                    Ok(())
                } else {
                    Err(bad_params("passkey is not bound to configured wallet"@))
                },
            },
        },
    }
}

/// A result without a value over its text.
pub open spec fn checked_view(r: Result<(), String>) -> Result<(), Seq<char>> {
    match r {
        Ok(_) => Ok(()),
        Err(m) => Err(m@),
    }
}

/// A result over its texts.
pub open spec fn named_view(r: Result<String, String>) -> Result<Seq<char>, Seq<char>> {
    match r {
        Ok(s) => Ok(s@),
        Err(m) => Err(m@),
    }
}

/// A result without a value over its error's view.
pub open spec fn unit_view(r: Result<(), RpcError>) -> Result<(), RpcErrorView> {
    match r {
        Ok(_) => Ok(()),
        Err(e) => Err(e@),
    }
}

/// The verdict over an authorization.
pub fn require_authorization(
    checked: &Result<(), String>,
    wallet: &Result<String, String>,
    stored: &StoredPasskey,
) -> (r: Result<(), RpcError>)
    ensures
        unit_view(r) == verdict(checked_view(*checked), named_view(*wallet), *stored),
{
    if let Err(m) = checked {
        return Err(
            refuse_text("passkey authorization failed: ".to_owned().concat(m.as_str())),
        );
    }
    let configured = match wallet {
        Ok(w) => w,
        Err(m) => return Err(fail_text(m.clone())),
    };
    match stored {
        StoredPasskey::Failed => Err(fail_text("internal error".to_owned())),
        StoredPasskey::Missing => Err(refuse("passkey not registered")),
        StoredPasskey::Bound(b) => {
            if same(b.as_str(), configured.as_str()) {
                Ok(())
            } else {
                Err(refuse("passkey is not bound to configured wallet"))
            }
        },
    }
}

/// A passkey authorizes only the wallet that it is bound to.
pub proof fn law_authorized_means_bound(
    checked: Result<(), Seq<char>>,
    wallet: Result<Seq<char>, Seq<char>>,
    stored: StoredPasskey,
)
    ensures
        verdict(checked, wallet, stored) is Ok <==> checked is Ok && wallet is Ok && (
        stored matches StoredPasskey::Bound(b) && wallet == Ok::<Seq<char>, Seq<char>>(b@)),
{
}

/// The parameters of a challenge.
#[derive(Debug)]
pub struct GenerateChallengeParams {
    credential_id: String,
}

impl GenerateChallengeParams {
    /// The credential, as text.
    pub closed spec fn id(&self) -> Seq<char> {
        self.credential_id@
    }

    /// Parameters for a credential.
    pub fn new(credential_id: String) -> (p: Self)
        ensures
            p.id() == credential_id@,
    {
        GenerateChallengeParams { credential_id }
    }

    /// The credential.
    pub fn credential_id(&self) -> (r: &str)
        ensures
            r@ == self.id(),
    {
        self.credential_id.as_str()
    }
}

/// The answer with a challenge.
pub fn handle_generate_challenge(challenge: &Result<Vec<u8>, String>) -> (r: Result<
    serde_json::Value,
    RpcError,
>)
    ensures
        match *challenge {
            Ok(c) => r matches Ok(v) && json_members(v) == Some(
                Map::<Seq<char>, serde_json::Value>::empty().insert(
                    "challenge_hex"@,
                    json_of(SettingView::Text(hex_text(c@))),
                ),
            ),
            Err(m) => r matches Err(e) && e@ == internal(m@),
        },
{
    match challenge {
        Ok(c) => Ok(
            with_member(
                empty_object(),
                "challenge_hex",
                setting_value(Setting::Text(hex_encode(c.as_slice()))),
            ),
        ),
        Err(m) => Err(fail_text(m.clone())),
    }
}

// ---------------------------------------------------------------------------
// Keys
// ---------------------------------------------------------------------------

/// A key of the signer.
#[derive(Debug)]
pub struct KeyInfo {
    pub alg: String,
    pub public_key: String,
    pub key_id: Option<String>,
}

impl KeyInfo {
    /// A key.
    pub fn new(alg: &str, public_key: String, key_id: Option<String>) -> (k: KeyInfo)
        ensures
            k.alg@ == alg@,
            k.public_key@ == public_key@,
            opt_text(k.key_id) == opt_text(key_id),
    {
        KeyInfo { alg: alg.to_owned(), public_key, key_id }
    }

    /// The key as JSON.
    pub fn to_json(&self) -> (v: serde_json::Value)
        ensures
            is_key(v, self.alg@, self.public_key@, opt_text(self.key_id)),
    {
        let doc = with_member(
            empty_object(),
            "alg",
            setting_value(Setting::Text(self.alg.clone())),
        );
        let doc = with_member(
            doc,
            "public_key",
            setting_value(Setting::Text(self.public_key.clone())),
        );
        let id = match &self.key_id {
            Some(s) => setting_value(Setting::Text(s.clone())),
            None => null(),
        };
        let doc = with_member(doc, "key_id", id);
        proof {
            lemma_key_names();
            assert(json_members(doc)->0.dom() =~= set!["alg"@, "public_key"@, "key_id"@]);
        }
        doc
    }
}

proof fn lemma_key_names()
    ensures
        "alg"@ != "public_key"@,
        "alg"@ != "key_id"@,
        "public_key"@ != "key_id"@,
{
    reveal_strlit("alg");
    reveal_strlit("public_key");
    reveal_strlit("key_id");
    assert("alg"@[0] == 'a');
    assert("public_key"@[0] == 'p');
    assert("key_id"@[0] == 'k');
}

/// `v` shows a key.
pub open spec fn is_key(
    v: serde_json::Value,
    alg: Seq<char>,
    public_key: Seq<char>,
    key_id: Option<Seq<char>>,
) -> bool {
    &&& json_members(v) matches Some(m)
    &&& m.dom() == set!["alg"@, "public_key"@, "key_id"@]
    &&& is_text(m["alg"@], alg)
    &&& is_text(m["public_key"@], public_key)
    &&& match key_id {
        Some(s) => is_text(m["key_id"@], s),
        None => json_is_null(m["key_id"@]),
    }
}

/// The public key of a secp256k1 secret, in its short form.
pub fn secp256k1_public_key(secret: &[u8]) -> (r: Result<Vec<u8>, String>)
    ensures
        match secp_public(secret@, true) {
            Ok(k) => r matches Ok(x) && x@ == k,
            Err(m) => r matches Err(e) && e@ == "invalid secp256k1 key: "@ + m,
        },
{
    match secp_public_key(secret, true) {
        Ok(k) => Ok(k),
        Err(m) => Err("invalid secp256k1 key: ".to_owned().concat(m.as_str())),
    }
}

/// The public key of an Ed25519 secret.
pub fn ed25519_public_key(secret: &[u8]) -> (r: Result<Vec<u8>, String>)
    ensures
        if secret@.len() == 32 {
            r matches Ok(x) && x@ == ed_public(secret@)
        } else {
            r matches Err(e) && e@ == "invalid ed25519 key length"@
        },
{
    if secret.len() != 32 {
        return Err("invalid ed25519 key length".to_owned());
    }
    Ok(ed_public_key(secret))
}

/// `v` lists the two keys of the signer.
pub open spec fn is_key_list(v: serde_json::Value, ed25519: Seq<u8>, secp256k1: Seq<u8>) -> bool {
    &&& json_items(v) matches Some(keys)
    &&& keys.len() == 2
    &&& is_key(keys[0], "ed25519"@, base64_text(ed25519), None)
    &&& is_key(keys[1], "secp256k1"@, base64_text(secp256k1), None)
}

/// The keys of the signer; the first that could not be had fails the request.
pub fn handle_keys(ed25519: &Result<Vec<u8>, String>, secp256k1: &Result<Vec<u8>, String>) -> (r:
    Result<serde_json::Value, RpcError>)
    ensures
        match (*ed25519, *secp256k1) {
            (Ok(a), Ok(b)) => r matches Ok(v) && is_key_list(v, a@, b@),
            (Err(m), _) => r matches Err(e) && e@ == internal(m@),
            (Ok(_), Err(m)) => r matches Err(e) && e@ == internal(m@),
        },
{
    let a = match ed25519 {
        Ok(a) => a,
        Err(m) => return Err(fail_text(m.clone())),
    };
    let b = match secp256k1 {
        Ok(b) => b,
        Err(m) => return Err(fail_text(m.clone())),
    };
    let mut keys: Vec<serde_json::Value> = Vec::new();
    keys.push(KeyInfo::new("ed25519", base64_encode(a.as_slice()), None).to_json());
    keys.push(KeyInfo::new("secp256k1", base64_encode(b.as_slice()), None).to_json());
    Ok(array(keys))
}

// ---------------------------------------------------------------------------
// Signing
// ---------------------------------------------------------------------------

/// The algorithms.
#[derive(Clone, Copy, Debug, PartialEq, Eq, Structural)]
pub enum Alg {
    Ed25519,
    Secp256k1,
}

/// The algorithm of a name.
pub open spec fn alg_of(name: Seq<char>) -> Option<Alg> {
    if name == "ed25519"@ {
        Some(Alg::Ed25519)
    } else if name == "secp256k1"@ {
        Some(Alg::Secp256k1)
    } else {
        None
    }
}

/// The name of an algorithm.
pub open spec fn alg_name(a: Alg) -> Seq<char> {
    match a {
        Alg::Ed25519 => "ed25519"@,
        Alg::Secp256k1 => "secp256k1"@,
    }
}

impl Alg {
    /// The name of the algorithm.
    pub fn name(self) -> (r: &'static str)
        ensures
            r@ == alg_name(self),
    {
        match self {
            Alg::Ed25519 => "ed25519",
            Alg::Secp256k1 => "secp256k1",
        }
    }

    /// The chain whose account signs.
    pub fn chain_id(self) -> (r: &'static str)
        ensures
            r@ == match self {
                Alg::Ed25519 => "solana:5eykt4UsFv8P8NJdTREpY1vzqKqZKvdp"@,
                Alg::Secp256k1 => "eip155:1"@,
            },
    {
        match self {
            Alg::Ed25519 => "solana:5eykt4UsFv8P8NJdTREpY1vzqKqZKvdp",
            Alg::Secp256k1 => "eip155:1",
        }
    }
}

/// A message to sign.
#[derive(Debug)]
pub struct SignRequest {
    pub message: Vec<u8>,
    pub alg: Alg,
}

/// The name of the algorithm that parameters ask for, in lower case.
pub open spec fn wanted_alg(params: serde_json::Value) -> Seq<char> {
    let named = match at(params, "key"@) {
        Some(k) => text_at(k, "alg"@),
        None => None,
    };
    ascii_lower(
        match named {
            Some(a) => a,
            None => "ed25519"@,
        },
    )
}

/// The message that parameters ask to sign.
pub open spec fn sign_request_of(params: serde_json::Value) -> Result<
    (Seq<u8>, Alg),
    RpcErrorView,
> {
    match text_at(params, "message"@) {
        None => Err(bad_params("missing 'message' (base64)"@)),
        Some(b64) => match base64_bytes(b64) {
            Err(m) => Err(bad_params("invalid base64 message: "@ + m)),
            Ok(message) => match alg_of(wanted_alg(params)) {
                None => Err(bad_params("unsupported alg: "@ + wanted_alg(params))),
                Some(alg) => Ok((message, alg)),
            },
        },
    }
}

/// The message that parameters ask to sign, and how.
pub fn handle_sign(params: &serde_json::Value) -> (r: Result<SignRequest, RpcError>)
    ensures
        match r {
            Ok(q) => sign_request_of(*params) == Ok::<(Seq<u8>, Alg), RpcErrorView>(
                (q.message@, q.alg),
            ),
            Err(e) => sign_request_of(*params) == Err::<(Seq<u8>, Alg), RpcErrorView>(e@),
        },
{
    let b64 = match member_text(params, "message") {
        Some(m) => m,
        None => return Err(refuse("missing 'message' (base64)")),
    };
    let message = match base64_decode(b64.as_str()) {
        Ok(b) => b,
        Err(e) => {
            return Err(refuse_text("invalid base64 message: ".to_owned().concat(e.as_str())));
        },
    };
    let named: Option<String> = match member(params, "key") {
        Some(k) => member_text(&k, "alg"),
        None => None,
    };
    let name = match named {
        Some(a) => to_ascii_lower(a.as_str()),
        None => to_ascii_lower("ed25519"),
    };
    if same(name.as_str(), "ed25519") {
        Ok(SignRequest { message, alg: Alg::Ed25519 })
    } else if same(name.as_str(), "secp256k1") {
        Ok(SignRequest { message, alg: Alg::Secp256k1 })
    } else {
        Err(refuse_text("unsupported alg: ".to_owned().concat(name.as_str())))
    }
}

/// A signature and the key that checks it.
#[derive(Debug)]
pub struct Signed {
    pub signature: Vec<u8>,
    pub public_key: Vec<u8>,
}

/// Signs with an Ed25519 secret.
pub fn sign_ed25519(secret: &[u8], message: &[u8]) -> (r: Result<Signed, RpcError>)
    ensures
        if secret@.len() == 32 {
            r matches Ok(s) && s.signature@ == ed_signature(secret@, message@) && s.public_key@
                == ed_public(secret@) && s.signature@.len() == 64
        } else {
            r matches Err(e) && e@ == internal("invalid ed25519 key length"@)
        },
{
    if secret.len() != 32 {
        return Err(fail_text("invalid ed25519 key length".to_owned()));
    }
    Ok(Signed { signature: ed_sign(secret, message), public_key: ed_public_key(secret) })
}

/// `v` answers with a signature.
pub open spec fn is_signed(v: serde_json::Value, alg: Alg, s: Signed) -> bool {
    &&& json_members(v) matches Some(m)
    &&& m.dom() == set!["signer"@, "signature"@]
    &&& is_key(m["signer"@], alg_name(alg), base64_text(s.public_key@), None)
    &&& json_members(m["signature"@]) matches Some(sig)
    &&& sig.dom() == set!["value"@, "alg"@]
    &&& is_text(sig["value"@], base64_text(s.signature@))
    &&& is_text(sig["alg"@], alg_name(alg))
}

/// The answer with a signature.
pub fn signed_response(alg: Alg, s: &Signed) -> (v: serde_json::Value)
    ensures
        is_signed(v, alg, *s),
{
    let signer = KeyInfo::new(alg.name(), base64_encode(s.public_key.as_slice()), None).to_json();
    let signature = with_member(
        empty_object(),
        "value",
        setting_value(Setting::Text(base64_encode(s.signature.as_slice()))),
    );
    let signature = with_member(
        signature,
        "alg",
        setting_value(Setting::Text(alg.name().to_owned())),
    );
    let doc = with_member(empty_object(), "signer", signer);
    let doc = with_member(doc, "signature", signature);
    proof {
        reveal_strlit("signer");
        reveal_strlit("signature");
        reveal_strlit("value");
        reveal_strlit("alg");
        assert("signer"@.len() != "signature"@.len());
        assert("value"@[0] == 'v');
        assert("alg"@[0] == 'a');
        assert(json_members(signature)->0.dom() =~= set!["value"@, "alg"@]);
        assert(json_members(doc)->0.dom() =~= set!["signer"@, "signature"@]);
    }
    doc
}

// ---------------------------------------------------------------------------
// Payments
// ---------------------------------------------------------------------------

/// The parameters of a payment.
#[derive(Debug)]
pub struct SignPaymentParams {
    chain_id: String,
    amount: Option<String>,
    payee: Option<String>,
    nonce: Option<String>,
}

/// [`SignPaymentParams`] with its texts as sequences of characters.
pub struct PaymentView {
    pub chain_id: Seq<char>,
    pub amount: Option<Seq<char>>,
    pub payee: Option<Seq<char>>,
    pub nonce: Option<Seq<char>>,
}

/// A borrowed text.
pub open spec fn opt_str(o: Option<&str>) -> Option<Seq<char>> {
    match o {
        Some(s) => Some(s@),
        None => None,
    }
}

fn borrow(o: &Option<String>) -> (r: Option<&str>)
    ensures
        opt_str(r) == opt_text(*o),
{
    match o {
        Some(s) => Some(s.as_str()),
        None => None,
    }
}

impl View for SignPaymentParams {
    type V = PaymentView;

    closed spec fn view(&self) -> PaymentView {
        PaymentView {
            chain_id: self.chain_id@,
            amount: opt_text(self.amount),
            payee: opt_text(self.payee),
            nonce: opt_text(self.nonce),
        }
    }
}

impl SignPaymentParams {
    /// Parameters of a payment.
    pub fn new(
        chain_id: String,
        amount: Option<String>,
        payee: Option<String>,
        nonce: Option<String>,
    ) -> (p: Self)
        ensures
            p@ == (PaymentView {
                chain_id: chain_id@,
                amount: opt_text(amount),
                payee: opt_text(payee),
                nonce: opt_text(nonce),
            }),
    {
        SignPaymentParams { chain_id, amount, payee, nonce }
    }

    /// The chain.
    pub fn chain_id(&self) -> (r: &str)
        ensures
            r@ == self@.chain_id,
    {
        self.chain_id.as_str()
    }

    /// The amount.
    pub fn amount(&self) -> (r: Option<&str>)
        ensures
            opt_str(r) == self@.amount,
    {
        borrow(&self.amount)
    }

    /// Who is paid.
    pub fn payee(&self) -> (r: Option<&str>)
        ensures
            opt_str(r) == self@.payee,
    {
        borrow(&self.payee)
    }

    /// The number of the transaction.
    pub fn nonce(&self) -> (r: Option<&str>)
        ensures
            opt_str(r) == self@.nonce,
    {
        borrow(&self.nonce)
    }
}

/// The highest fee per unit of gas: one gwei.
pub const MAX_FEE: u128 = 1_000_000_000;

/// The gas of a payment.
pub const GAS_LIMIT: u128 = 52_000;

/// The unsigned EIP-1559 transaction of a payment.
pub open spec fn payment_tx(chain_id: int, nonce: int, payee: Seq<u8>, amount: int) -> Seq<u8> {
    seq![0x02u8] + rlp_list(
        rlp_bytes(uint_bytes(chain_id as nat)) + rlp_bytes(uint_bytes(nonce as nat)) + rlp_bytes(
            uint_bytes(0),
        ) + rlp_bytes(uint_bytes(MAX_FEE as nat)) + rlp_bytes(uint_bytes(GAS_LIMIT as nat))
            + rlp_bytes(payee) + rlp_bytes(uint_bytes(amount as nat)) + rlp_bytes(Seq::empty())
            + rlp_list(Seq::empty()),
    )
}

/// The unsigned transaction that parameters ask to sign.
pub open spec fn payment_of(p: PaymentView) -> Result<Seq<u8>, RpcErrorView> {
    match strip_prefix(p.chain_id, "eip155:"@) {
        None => Err(bad_params("chain_id must be eip155:<n>"@)),
        Some(chain) => match parsed(chain, u128::MAX as int) {
            None => Err(bad_params("invalid chain id: "@ + p.chain_id)),
            Some(chain_id) => match p.amount {
                None => Err(bad_params("missing 'amount' (wei, decimal string)"@)),
                Some(amount_text) => match parsed(amount_text, u128::MAX as int) {
                    None => Err(bad_params("invalid amount: "@ + number_fault(amount_text))),
                    Some(amount) => payment_to(p, chain_id, amount),
                },
            },
        },
    }
}

/// The unsigned transaction, when the chain and the amount are known.
pub open spec fn payment_to(p: PaymentView, chain_id: int, amount: int) -> Result<
    Seq<u8>,
    RpcErrorView,
> {
    match p.payee {
        None => Err(bad_params("missing 'payee'"@)),
        Some(payee) => if !is_hex(without_0x(payee)) {
            Err(bad_params("invalid payee hex: "@ + hex_fault(without_0x(payee))))
        } else if hex_bytes(without_0x(payee)).len() != 20 {
            Err(bad_params("payee must be a 20-byte address"@))
        } else {
            match p.nonce {
                None => Ok(payment_tx(chain_id, 0, hex_bytes(without_0x(payee)), amount)),
                Some(n) => match parsed(n, u128::MAX as int) {
                    None => Err(bad_params("invalid nonce: "@ + number_fault(n))),
                    Some(nonce) => Ok(
                        payment_tx(chain_id, nonce, hex_bytes(without_0x(payee)), amount),
                    ),
                },
            }
        },
    }
}

/// Reading the transaction of a payment back: the chain, the number, the payee
/// and the amount stand in their own places; the fee is one gwei at most, the gas
/// is 52000, and there is no tip, no data and no access list.
pub proof fn law_payments_are_read_back(chain_id: u128, nonce: u128, payee: Seq<u8>, amount: u128)
    requires
        payee.len() == 20,
    ensures
        read_transaction(
            payment_tx(chain_id as int, nonce as int, payee, amount as int),
        ) matches Some(t) && t.chain_id == chain_id && t.nonce == nonce && t.to == payee && t.value
            == amount && t.max_priority_fee == 0 && t.max_fee == 1_000_000_000 && t.gas_limit
            == 52_000 && t.data == Seq::<u8>::empty() && t.access_list == Seq::<u8>::empty(),
{
    lemma_u128_len(chain_id);
    lemma_u128_len(nonce);
    lemma_u128_len(amount);
    lemma_u128_len(MAX_FEE);
    lemma_u128_len(GAS_LIMIT);
    assert(uint_bytes(0) =~= Seq::<u8>::empty());
    let t = Transaction {
        chain_id: chain_id as nat,
        nonce: nonce as nat,
        max_priority_fee: 0,
        max_fee: MAX_FEE as nat,
        gas_limit: GAS_LIMIT as nat,
        to: payee,
        value: amount as nat,
        data: Seq::empty(),
        access_list: Seq::empty(),
    };
    let items = rlp_bytes(uint_bytes(chain_id as nat)) + rlp_bytes(uint_bytes(nonce as nat))
        + rlp_bytes(uint_bytes(0)) + rlp_bytes(uint_bytes(MAX_FEE as nat)) + rlp_bytes(
        uint_bytes(GAS_LIMIT as nat),
    ) + rlp_bytes(payee) + rlp_bytes(uint_bytes(amount as nat)) + rlp_bytes(Seq::empty())
        + rlp_list(Seq::empty());
    assert(rlp_bytes(payee).len() == 21);
    lemma_transaction_is_read_back(t, items);
}

/// The number that an optional text asks for; nothing is zero.
pub open spec fn asks_for(text: Option<Seq<char>>, n: nat) -> bool {
    match text {
        Some(s) => parsed(s, u128::MAX as int) == Some(n as int),
        None => n == 0,
    }
}

/// A payment is built only from a chain, an amount and a payee of twenty bytes,
/// and then always; what is built says exactly what was asked for.
pub proof fn law_payments_say_what_was_asked_for(p: PaymentView)
    ensures
        payment_of(p) matches Ok(tx) ==> {
            &&& p.amount is Some && p.payee is Some
            &&& read_transaction(tx) matches Some(t) && {
                &&& "eip155:"@.is_prefix_of(p.chain_id)
                &&& parsed(p.chain_id.skip("eip155:"@.len() as int), u128::MAX as int) == Some(
                    t.chain_id as int,
                )
                &&& asks_for(p.nonce, t.nonce)
                &&& parsed(p.amount->0, u128::MAX as int) == Some(t.value as int)
                &&& is_hex(without_0x(p.payee->0)) && t.to == hex_bytes(without_0x(p.payee->0))
                &&& t.to.len() == 20
                &&& t.max_priority_fee == 0 && t.max_fee == 1_000_000_000 && t.gas_limit == 52_000
                &&& t.data.len() == 0 && t.access_list.len() == 0
            }
        },
        "eip155:"@.is_prefix_of(p.chain_id) && parsed(
            p.chain_id.skip("eip155:"@.len() as int),
            u128::MAX as int,
        ) is Some && (p.amount matches Some(a) && parsed(a, u128::MAX as int) is Some) && (
        p.payee matches Some(x) && is_hex(without_0x(x)) && hex_bytes(without_0x(x)).len() == 20)
            && (p.nonce matches Some(n) ==> parsed(n, u128::MAX as int) is Some) ==> payment_of(
            p,
        ) is Ok,
{
    if let Some(chain) = strip_prefix(p.chain_id, "eip155:"@) {
        law_parsed_numbers_are_in_range(chain, u128::MAX as int);
        if let (Some(a), Some(x)) = (p.amount, p.payee) {
            law_parsed_numbers_are_in_range(a, u128::MAX as int);
            let nonce = match p.nonce {
                Some(n) => n,
                None => "0"@,
            };
            law_parsed_numbers_are_in_range(nonce, u128::MAX as int);
            if payment_of(p) is Ok {
                let chain_id = parsed(chain, u128::MAX as int)->0;
                let amount = parsed(a, u128::MAX as int)->0;
                let number = match p.nonce {
                    Some(n) => parsed(n, u128::MAX as int)->0,
                    None => 0,
                };
                law_payments_are_read_back(
                    chain_id as u128,
                    number as u128,
                    hex_bytes(without_0x(x)),
                    amount as u128,
                );
            }
        }
    }
}

fn build_payment(chain_id: u128, nonce: u128, payee: &Vec<u8>, amount: u128) -> (r: Vec<u8>)
    ensures
        r@ == payment_tx(chain_id as int, nonce as int, payee@, amount as int),
{
    let none: Vec<u8> = Vec::new();
    let mut items = rlp_u128(chain_id);
    append(&mut items, rlp_u128(nonce).as_slice());
    append(&mut items, rlp_u128(0).as_slice());
    append(&mut items, rlp_u128(MAX_FEE).as_slice());
    append(&mut items, rlp_u128(GAS_LIMIT).as_slice());
    append(&mut items, encode_bytes(payee.as_slice()).as_slice());
    append(&mut items, rlp_u128(amount).as_slice());
    append(&mut items, encode_bytes(none.as_slice()).as_slice());
    append(&mut items, encode_list(none.as_slice()).as_slice());
    assert(none@ =~= Seq::<u8>::empty());
    let mut out: Vec<u8> = Vec::new();
    out.push(0x02);
    assert(out@ =~= seq![0x02u8]);
    append(&mut out, encode_list(items.as_slice()).as_slice());
    out
}

/// A result over its bytes.
pub open spec fn tx_view(r: Result<Vec<u8>, RpcError>) -> Result<Seq<u8>, RpcErrorView> {
    match r {
        Ok(b) => Ok(b@),
        Err(e) => Err(e@),
    }
}

/// The unsigned transaction that parameters ask to sign.
pub fn handle_sign_payment(p: &SignPaymentParams) -> (r: Result<Vec<u8>, RpcError>)
    ensures
        tx_view(r) == payment_of(p@),
        r matches Ok(tx) ==> (read_transaction(tx@) matches Some(t) && parsed(
            p@.chain_id.skip("eip155:"@.len() as int),
            u128::MAX as int,
        ) == Some(t.chain_id as int) && asks_for(p@.nonce, t.nonce) && parsed(
            p@.amount->0,
            u128::MAX as int,
        ) == Some(t.value as int) && t.to == hex_bytes(without_0x(p@.payee->0))),
{
    proof {
        law_payments_say_what_was_asked_for(p@);
    }

    let chain = match without_prefix(p.chain_id.as_str(), "eip155:") {
        Some(c) => c,
        None => return Err(refuse("chain_id must be eip155:<n>")),
    };
    let chain_id: u128 = match parse_unsigned(chain.as_str(), u128::MAX) {
        Some(n) => n,
        None => {
            return Err(
                refuse_text("invalid chain id: ".to_owned().concat(p.chain_id.as_str())),
            );
        },
    };
    let amount: u128 = match &p.amount {
        None => return Err(refuse("missing 'amount' (wei, decimal string)")),
        Some(a) => match parse_u128(a.as_str()) {
            Ok(n) => n,
            Err(e) => {
                return Err(refuse_text("invalid amount: ".to_owned().concat(e.as_str())));
            },
        },
    };
    let payee = match &p.payee {
        None => return Err(refuse("missing 'payee'")),
        Some(x) => match hex_decode(strip_0x(x.as_str()).as_str()) {
            Ok(b) => b,
            Err(e) => {
                return Err(refuse_text("invalid payee hex: ".to_owned().concat(e.as_str())));
            },
        },
    };
    if payee.len() != 20 {
        return Err(refuse("payee must be a 20-byte address"));
    }
    let nonce: u128 = match &p.nonce {
        None => 0,
        Some(n) => match parse_u128(n.as_str()) {
            Ok(n) => n,
            Err(e) => {
                return Err(refuse_text("invalid nonce: ".to_owned().concat(e.as_str())));
            },
        },
    };
    Ok(build_payment(chain_id, nonce, &payee, amount))
}

/// The refusal of parameters of a payment that could not be read.
pub fn invalid_payment_params(message: &str) -> (e: RpcError)
    ensures
        e@ == bad_params("invalid payment params: "@ + message@),
{
    refuse_text("invalid payment params: ".to_owned().concat(message))
}

/// The refusal of parameters of a challenge that could not be read.
pub fn invalid_challenge_params(message: &str) -> (e: RpcError)
    ensures
        e@ == bad_params("invalid challenge params: "@ + message@),
{
    refuse_text("invalid challenge params: ".to_owned().concat(message))
}

/// `v` answers with a signed transaction, whose hash is not known yet.
pub open spec fn is_payment_response(v: serde_json::Value, signed: Seq<u8>) -> bool {
    &&& json_members(v) matches Some(m)
    &&& m.dom() == set!["raw_transaction"@, "tx_hash"@]
    &&& is_text(m["raw_transaction"@], "0x"@ + hex_text(signed))
    &&& json_is_null(m["tx_hash"@])
}

/// The answer with a signed transaction.
pub fn payment_response(signed: &Vec<u8>) -> (v: serde_json::Value)
    ensures
        is_payment_response(v, signed@),
{
    let raw = "0x".to_owned().concat(hex_encode(signed.as_slice()).as_str());
    let doc = with_member(empty_object(), "raw_transaction", setting_value(Setting::Text(raw)));
    let doc = with_member(doc, "tx_hash", null());
    proof {
        reveal_strlit("raw_transaction");
        reveal_strlit("tx_hash");
        assert("raw_transaction"@[0] == 'r');
        assert("tx_hash"@[0] == 't');
        assert(json_members(doc)->0.dom() =~= set!["raw_transaction"@, "tx_hash"@]);
    }
    doc
}

// ---------------------------------------------------------------------------
// Intents
// ---------------------------------------------------------------------------

/// The parameters of an intent, before its kind is read.
#[derive(Debug)]
pub struct IntentParams {
    pub chain_id: String,
    pub session_key_id: String,
    pub kind: serde_json::Value,
    pub rpc_url: Option<String>,
}

/// What is missing in the parameters of an intent.
pub open spec fn intent_missing(params: serde_json::Value) -> Option<Seq<char>> {
    if text_at(params, "chain_id"@) is None {
        Some("missing 'chain_id'"@)
    } else if text_at(params, "session_key_id"@) is None {
        Some("missing 'session_key_id'"@)
    } else if at(params, "kind"@) is None {
        Some("missing 'kind'"@)
    } else {
        None
    }
}

/// The parameters of an intent.
pub fn intent_params(params: &serde_json::Value) -> (r: Result<IntentParams, RpcError>)
    ensures
        match intent_missing(*params) {
            Some(m) => r matches Err(e) && e@ == bad_params(m),
            None => r matches Ok(p) && text_at(*params, "chain_id"@) == Some(p.chain_id@)
                && text_at(*params, "session_key_id"@) == Some(p.session_key_id@) && at(
                *params,
                "kind"@,
            ) == Some(p.kind) && opt_text(p.rpc_url) == text_at(*params, "rpc_url"@),
        },
{
    let chain_id = match member_text(params, "chain_id") {
        Some(c) => c,
        None => return Err(refuse("missing 'chain_id'")),
    };
    let session_key_id = match member_text(params, "session_key_id") {
        Some(s) => s,
        None => return Err(refuse("missing 'session_key_id'")),
    };
    let kind = match member(params, "kind") {
        Some(k) => k,
        None => return Err(refuse("missing 'kind'")),
    };
    Ok(IntentParams { chain_id, session_key_id, kind, rpc_url: member_text(params, "rpc_url") })
}

/// The account that executes an intent, which is asked for after the kind was
/// read.
pub fn intent_sender(params: &serde_json::Value) -> (r: Result<String, RpcError>)
    ensures
        match text_at(*params, "from_address"@) {
            Some(a) => r matches Ok(s) && s@ == a,
            None => r matches Err(e) && e@ == bad_params("missing 'from_address'"@),
        },
{
    match member_text(params, "from_address") {
        Some(a) => Ok(a),
        None => Err(refuse("missing 'from_address'")),
    }
}

/// A step of an intent that failed, by what it was about.
#[derive(Clone, Copy, Debug, PartialEq, Eq, Structural)]
pub enum IntentStep {
    Kind,
    Rpc,
    Simulate,
    Execute,
    EncodeSummary,
    EncodeResult,
}

/// The error of a step: a kind that cannot be read is the caller's, all others
/// are the signer's.
pub open spec fn step_error(s: IntentStep, message: Seq<char>) -> RpcErrorView {
    match s {
        IntentStep::Kind => bad_params("invalid kind: "@ + message),
        IntentStep::Rpc => internal("intent RPC unavailable: "@ + message),
        IntentStep::Simulate => internal("intent simulate: "@ + message),
        IntentStep::Execute => internal("intent execute: "@ + message),
        IntentStep::EncodeSummary => internal("summary encode: "@ + message),
        IntentStep::EncodeResult => internal("result encode: "@ + message),
    }
}

/// The error of a step.
pub fn intent_error(s: IntentStep, message: &str) -> (e: RpcError)
    ensures
        e@ == step_error(s, message@),
{
    match s {
        IntentStep::Kind => refuse_text("invalid kind: ".to_owned().concat(message)),
        IntentStep::Rpc => fail_text("intent RPC unavailable: ".to_owned().concat(message)),
        IntentStep::Simulate => fail_text("intent simulate: ".to_owned().concat(message)),
        IntentStep::Execute => fail_text("intent execute: ".to_owned().concat(message)),
        IntentStep::EncodeSummary => fail_text("summary encode: ".to_owned().concat(message)),
        IntentStep::EncodeResult => fail_text("result encode: ".to_owned().concat(message)),
    }
}

// ---------------------------------------------------------------------------
// The server
// ---------------------------------------------------------------------------

/// The settings of the server inside the daemon.
#[derive(Debug)]
pub struct DaemonConfig {
    pub listen: String,
    pub wallet: String,
    pub index: u32,
}

/// The settings of the server inside the daemon, from the environment: off, on
/// the default wallet and its first key, unless told otherwise.
pub fn daemon_config(listen: &Option<String>, wallet: &Option<String>, index: &Option<String>) -> (c:
    DaemonConfig)
    ensures
        c.listen@ == match opt_text(*listen) {
            Some(l) => l,
            None => "off"@,
        },
        c.wallet@ == match opt_text(*wallet) {
            Some(w) => w,
            None => "default"@,
        },
        c.index == match opt_text(*index) {
            Some(i) => match parsed(i, u32::MAX as int) {
                Some(n) => n,
                None => 0,
            },
            None => 0,
        },
{
    let listen = match listen {
        Some(l) => l.clone(),
        None => "off".to_owned(),
    };
    let wallet = match wallet {
        Some(w) => w.clone(),
        None => "default".to_owned(),
    };
    let index: u32 = match index {
        Some(i) => match parse_unsigned(i.as_str(), 0xffff_ffff) {
            Some(n) => n as u32,
            None => 0,
        },
        None => 0,
    };
    DaemonConfig { listen, wallet, index }
}

/// An address to listen on, as it was read.
#[derive(Debug)]
pub enum ListenAddress {
    Invalid(String),
    /// The address as it is shown, and whether only this machine reaches it.
    Parsed { shown: String, loopback: bool },
}

/// The server listens where only this machine reaches it.
pub fn parse_loopback(listen: &str, address: &ListenAddress) -> (r: Result<(), CliError>)
    ensures
        match *address {
            ListenAddress::Invalid(m) => r matches Err(e) && e@ == CliErrorView::InvalidArgs(
                "invalid listen address '"@ + listen@ + "': "@ + m@,
            ),
            ListenAddress::Parsed { shown, loopback } => if loopback {
                r is Ok
            } else {
                r matches Err(e) && e@ == CliErrorView::InvalidArgs(
                    "WalletSigner MUST bind to loopback (127.0.0.1) only, got "@ + shown@,
                )
            },
        },
{
    match address {
        ListenAddress::Invalid(m) => Err(
            invalid_args(
                "invalid listen address '".to_owned().concat(listen).concat("': ").concat(
                    m.as_str(),
                ),
            ),
        ),
        ListenAddress::Parsed { shown, loopback } => {
            if *loopback {
                Ok(())
            } else {
                Err(
                    invalid_args(
                        "WalletSigner MUST bind to loopback (127.0.0.1) only, got ".to_owned().concat(
                            shown.as_str(),
                        ),
                    ),
                )
            }
        },
    }
}

/// What the server signs with.
#[derive(Debug)]
pub struct Served {
    pub wallet: String,
    pub index: u32,
}

/// What a server on `listen` signs with, if it may listen there.
pub fn serve(listen: &str, address: &ListenAddress, wallet: &str, index: u32) -> (r: Result<
    Served,
    CliError,
>)
    ensures
        match *address {
            ListenAddress::Invalid(m) => r matches Err(e) && e@ == CliErrorView::InvalidArgs(
                "invalid listen address '"@ + listen@ + "': "@ + m@,
            ),
            ListenAddress::Parsed { shown, loopback } => if loopback {
                r matches Ok(s) && s.wallet@ == wallet@ && s.index == index
            } else {
                r matches Err(e) && e@ == CliErrorView::InvalidArgs(
                    "WalletSigner MUST bind to loopback (127.0.0.1) only, got "@ + shown@,
                )
            },
        },
{
    match parse_loopback(listen, address) {
        Err(e) => Err(e),
        Ok(_) => Ok(Served { wallet: wallet.to_owned(), index }),
    }
}

/// What is printed when the server listens.
pub fn listening_line(address: &str, wallet: &str, index: u32) -> (r: String)
    ensures
        r@ == "WalletSigner JSON-RPC server listening on http://"@ + address@ + " (wallet '"@
            + wallet@ + "', index "@ + decimal(index as int) + ")"@,
{
    "WalletSigner JSON-RPC server listening on http://".to_owned().concat(address).concat(
        " (wallet '",
    ).concat(wallet).concat("', index ").concat(dec(index as u128).as_str()).concat(")")
}

proof fn lemma_method_names()
    ensures
        "ledgerflow_generate_challenge"@ != "ledgerflow_keys"@,
        "ledgerflow_generate_challenge"@ != "ledgerflow_sign"@,
        "ledgerflow_generate_challenge"@ != "ledgerflow_sign_payment"@,
        "ledgerflow_generate_challenge"@ != "ledgerflow_intentSimulate"@,
        "ledgerflow_generate_challenge"@ != "ledgerflow_intentExecute"@,
        "ledgerflow_keys"@ != "ledgerflow_sign"@,
        "ledgerflow_keys"@ != "ledgerflow_sign_payment"@,
        "ledgerflow_keys"@ != "ledgerflow_intentSimulate"@,
        "ledgerflow_keys"@ != "ledgerflow_intentExecute"@,
        "ledgerflow_sign"@ != "ledgerflow_sign_payment"@,
        "ledgerflow_sign"@ != "ledgerflow_intentSimulate"@,
        "ledgerflow_sign"@ != "ledgerflow_intentExecute"@,
        "ledgerflow_sign_payment"@ != "ledgerflow_intentSimulate"@,
        "ledgerflow_sign_payment"@ != "ledgerflow_intentExecute"@,
        "ledgerflow_intentSimulate"@ != "ledgerflow_intentExecute"@,
{
    reveal_strlit("ledgerflow_generate_challenge");
    reveal_strlit("ledgerflow_keys");
    reveal_strlit("ledgerflow_sign");
    reveal_strlit("ledgerflow_sign_payment");
    reveal_strlit("ledgerflow_intentSimulate");
    reveal_strlit("ledgerflow_intentExecute");
    assert("ledgerflow_generate_challenge"@.len() == 29);
    assert("ledgerflow_keys"@.len() == 15 && "ledgerflow_keys"@[11] == 'k');
    assert("ledgerflow_sign"@.len() == 15 && "ledgerflow_sign"@[11] == 's');
    assert("ledgerflow_sign_payment"@.len() == 23);
    assert("ledgerflow_intentSimulate"@.len() == 25);
    assert("ledgerflow_intentExecute"@.len() == 24);
}

/// A request is routed exactly when it has the version 2.0, parameters and one
/// of the six names; each name reaches its own method, and only a challenge and
/// a simulation are answered without an authorization.
pub proof fn law_each_name_reaches_its_method(version: Seq<char>, name: Seq<char>, params: bool)
    ensures
        route_of(version, name, params) is Ok <==> version == "2.0"@ && params && (name
            == "ledgerflow_generate_challenge"@ || name == "ledgerflow_keys"@ || name
            == "ledgerflow_sign"@ || name == "ledgerflow_sign_payment"@ || name
            == "ledgerflow_intentSimulate"@ || name == "ledgerflow_intentExecute"@),
        route_of(version, name, params) matches Ok(route) ==> {
            &&& route.method == Method::GenerateChallenge <==> name
                == "ledgerflow_generate_challenge"@
            &&& route.method == Method::Keys <==> name == "ledgerflow_keys"@
            &&& route.method == Method::Sign <==> name == "ledgerflow_sign"@
            &&& route.method == Method::SignPayment <==> name == "ledgerflow_sign_payment"@
            &&& route.method == Method::IntentSimulate <==> name == "ledgerflow_intentSimulate"@
            &&& route.method == Method::IntentExecute <==> name == "ledgerflow_intentExecute"@
            &&& route.authorize <==> name != "ledgerflow_generate_challenge"@ && name
                != "ledgerflow_intentSimulate"@
        },
        route_of(version, name, params) matches Err(e) ==> {
            &&& e.code == -32600 <==> version != "2.0"@
            &&& e.code == -32602 <==> version == "2.0"@ && method_of(name) is Some && !params
            &&& e.code == -32601 <==> version == "2.0"@ && method_of(name) is None
        },
{
    lemma_method_names();
}

/// An authorization that was read is what stands in `auth`: the challenge and
/// the signature are the bytes of their own digits, and the credential is its
/// text; one that has all three is never refused.
pub proof fn law_authorizations_are_what_stands_in_auth(params: serde_json::Value)
    ensures
        auth_of(params) matches Ok(a) ==> (at(params, "auth"@) matches Some(o) && {
            &&& text_at(o, "challenge_hex"@) matches Some(c) && is_hex(c) && a.challenge
                == hex_bytes(c)
            &&& text_at(o, "signature_hex"@) matches Some(s) && is_hex(s) && a.signature
                == hex_bytes(s)
            &&& text_at(o, "credential_id"@) == Some(a.credential_id)
        }),
        (at(params, "auth"@) matches Some(o) && (text_at(o, "challenge_hex"@) matches Some(c)
            && is_hex(c)) && (text_at(o, "signature_hex"@) matches Some(s) && is_hex(s)) && text_at(
            o,
            "credential_id"@,
        ) is Some) ==> auth_of(params) is Ok,
        auth_of(params) matches Err(e) ==> e.code == -32602,
{
}

/// What is signed is the message that was sent, with the algorithm that was
/// named in any case, Ed25519 when none was; no other algorithm is accepted.
pub proof fn law_signing_uses_the_named_algorithm(params: serde_json::Value)
    ensures
        sign_request_of(params) matches Ok((message, alg)) ==> {
            &&& text_at(params, "message"@) matches Some(b) && base64_bytes(b)
                == Ok::<Seq<u8>, Seq<char>>(message)
            &&& at(params, "key"@) is None ==> alg == Alg::Ed25519
            &&& (at(params, "key"@) matches Some(k) && (text_at(k, "alg"@) matches Some(n)
                && ascii_lower(n) == "secp256k1"@)) <==> alg == Alg::Secp256k1
        },
        (at(params, "key"@) matches Some(k) && (text_at(k, "alg"@) matches Some(n) && ascii_lower(n)
            != "secp256k1"@ && ascii_lower(n) != "ed25519"@)) ==> sign_request_of(params) is Err,
        (text_at(params, "message"@) matches Some(b) && base64_bytes(b) is Ok) && (match at(
            params,
            "key"@,
        ) {
            Some(k) => match text_at(k, "alg"@) {
                Some(n) => ascii_lower(n) == "secp256k1"@ || ascii_lower(n) == "ed25519"@,
                None => true,
            },
            None => true,
        }) ==> sign_request_of(params) is Ok,
{
    reveal_strlit("ed25519");
    reveal_strlit("secp256k1");
    assert("ed25519"@.len() != "secp256k1"@.len());
    assert(ascii_lower("ed25519"@) =~= "ed25519"@);
}

/// The name of an algorithm names it, and no other.
pub proof fn law_algorithms_have_their_names(a: Alg)
    ensures
        alg_of(alg_name(a)) == Some(a),
        a == Alg::Ed25519 <==> alg_name(a) == "ed25519"@,
        a == Alg::Secp256k1 <==> alg_name(a) == "secp256k1"@,
{
    reveal_strlit("ed25519");
    reveal_strlit("secp256k1");
    assert("ed25519"@.len() != "secp256k1"@.len());
}

/// Nothing is missing exactly when the chain, the session key and the kind are
/// there, and what is named as missing is missing.
pub proof fn law_missing_parameters_are_named(params: serde_json::Value)
    ensures
        intent_missing(params) is None <==> text_at(params, "chain_id"@) is Some && text_at(
            params,
            "session_key_id"@,
        ) is Some && at(params, "kind"@) is Some,
        intent_missing(params) == Some("missing 'chain_id'"@) <==> text_at(
            params,
            "chain_id"@,
        ) is None,
        intent_missing(params) == Some("missing 'kind'"@) ==> at(params, "kind"@) is None,
        intent_missing(params) == Some("missing 'session_key_id'"@) ==> text_at(
            params,
            "session_key_id"@,
        ) is None,
{
    reveal_strlit("missing 'chain_id'");
    reveal_strlit("missing 'session_key_id'");
    reveal_strlit("missing 'kind'");
    assert("missing 'chain_id'"@.len() == 18);
    assert("missing 'session_key_id'"@.len() == 24);
    assert("missing 'kind'"@.len() == 14);
}

/// Only a kind that cannot be read is blamed on the caller.
pub proof fn law_only_kinds_are_the_callers_fault(s: IntentStep, message: Seq<char>)
    ensures
        step_error(s, message).code == -32602 <==> s == IntentStep::Kind,
        s != IntentStep::Kind ==> step_error(s, message).code == -32603,
{
}

/// An authorization that is refused tells the caller of an internal failure
/// only when the wallet or the store failed.
pub proof fn law_internal_failures_are_told_apart(
    checked: Result<(), Seq<char>>,
    wallet: Result<Seq<char>, Seq<char>>,
    stored: StoredPasskey,
)
    ensures
        verdict(checked, wallet, stored) matches Err(e) ==> {
            &&& e.code == -32603 <==> checked is Ok && (wallet is Err || stored is Failed)
            &&& e.code == -32602 || e.code == -32603
        },
{
}

/// The answer to a call carries its identifier and the version of the protocol,
/// and either a result or an error with its code and message, never both.
pub proof fn law_answers_carry_the_identifier(
    v: serde_json::Value,
    id: serde_json::Value,
    result: serde_json::Value,
    e: RpcErrorView,
)
    ensures
        is_success(v, id, result) || is_failure(v, id, e) ==> (json_members(v) matches Some(m)
            && m["id"@] == id && m["jsonrpc"@] == json_of(SettingView::Text("2.0"@))),
        is_success(v, id, result) ==> (json_members(v) matches Some(m) && m["result"@] == result
            && !m.contains_key("error"@)),
        is_failure(v, id, e) ==> (json_members(v) matches Some(m) && !m.contains_key("result"@)
            && (json_members(m["error"@]) matches Some(x) && x["code"@] == json_signed(
            e.code as i64,
        ) && x["message"@] == json_of(SettingView::Text(e.message)))),
{
    reveal_strlit("jsonrpc");
    reveal_strlit("id");
    reveal_strlit("result");
    reveal_strlit("error");
    reveal_strlit("code");
    reveal_strlit("message");
    assert("jsonrpc"@.len() == 7 && "jsonrpc"@[0] == 'j' && "id"@.len() == 2 && "id"@[0] == 'i'
        && "result"@.len() == 6 && "result"@[0] == 'r' && "error"@.len() == 5
        && "error"@[0] == 'e' && "code"@.len() == 4 && "code"@[0] == 'c' && "message"@.len() == 7
        && "message"@[0] == 'm');
}

/// The keys of the wallet are listed with the algorithm that each belongs to, the
/// Ed25519 key first.
pub proof fn law_keys_are_listed_with_their_algorithm(
    v: serde_json::Value,
    ed25519: Seq<u8>,
    secp256k1: Seq<u8>,
)
    requires
        is_key_list(v, ed25519, secp256k1),
    ensures
        json_items(v) matches Some(k) && k.len() == 2 && text_at(k[0], "alg"@) == Some("ed25519"@)
            && text_at(k[0], "public_key"@) == Some(base64_text(ed25519)) && text_at(k[1], "alg"@)
            == Some("secp256k1"@) && text_at(k[1], "public_key"@) == Some(base64_text(secp256k1)),
{
}

/// A signature is given with the key that made it and the algorithm that was asked
/// for.
pub proof fn law_signatures_name_their_signer(v: serde_json::Value, alg: Alg, s: Signed)
    requires
        is_signed(v, alg, s),
    ensures
        json_members(v) matches Some(m) && text_at(m["signer"@], "public_key"@) == Some(
            base64_text(s.public_key@),
        ) && text_at(m["signer"@], "alg"@) == Some(alg_name(alg)) && text_at(m["signature"@], "value"@)
            == Some(base64_text(s.signature@)) && text_at(m["signature"@], "alg"@) == Some(
            alg_name(alg),
        ),
{
}

/// A signed payment is given as the digits of the signed transaction; it was not
/// sent, so it has no hash.
pub proof fn law_signed_payments_are_not_sent(v: serde_json::Value, signed: Seq<u8>)
    requires
        is_payment_response(v, signed),
    ensures
        text_at(v, "raw_transaction"@) == Some("0x"@ + hex_text(signed)),
        json_members(v) matches Some(m) && json_is_null(m["tx_hash"@]),
{
}

/// An authorization is read as it was given, each part under its own name.
pub proof fn law_authorizations_keep_each_part(a: PasskeyAuthorization)
    ensures
        auth_view(a).challenge == a.challenge@,
        auth_view(a).signature == a.signature@,
        auth_view(a).credential_id == a.credential_id@,
{
}

} // verus!
