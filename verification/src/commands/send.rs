//! `send`: an ERC-20 transfer.
use vstd::prelude::*;

use crate::codec::{hex_bytes, hex_decode, hex_digit, hex_encode, hex_fault, hex_text, is_hex};
use crate::error::{invalid, invalid_args, CliError, CliErrorView};
use crate::json::{
    array, compact, empty_object, json_compact, json_document, json_is_null, json_items, json_members,
    json_of, json_string, member, null, parse, setting_value, text_value, with_member, Setting,
    SettingView,
};
use crate::eip1559::{lemma_transaction_is_read_back, read_transaction, Transaction};
use crate::rlp::{
    append, be_value, encode_bytes, encode_list, lemma_leading_zero, lemma_u64_len, rlp_bytes,
    rlp_list, rlp_uint, uint_bytes,
};
use crate::text::{
    ascii_lower, chars_of, dec, decimal, law_parsed_numbers_are_in_range, parse_unsigned, parsed,
        starts_with, strip_prefix, text_range,
    to_ascii_lower, trim, trimmed, without_prefix,
};

verus! {

// ---------------------------------------------------------------------------
// Arguments
// ---------------------------------------------------------------------------

/// All characters are hexadecimal digits.
pub open spec fn all_hex(s: Seq<char>) -> bool {
    forall|i: int| 0 <= i < s.len() ==> hex_digit(#[trigger] s[i]) is Some
}

/// Whether all characters are hexadecimal digits.
pub fn is_all_hex(v: &Vec<char>) -> (r: bool)
    ensures
        r == all_hex(v@),
{
    let mut i: usize = 0;
    while i < v.len()
        invariant
            i <= v@.len(),
            forall|k: int| 0 <= k < i ==> hex_digit(#[trigger] v@[k]) is Some,
        decreases v@.len() - i,
    {
        let c = v[i];
        let hex = (c >= '0' && c <= '9') || (c >= 'a' && c <= 'f') || (c >= 'A' && c <= 'F');
        if !hex {
            assert(hex_digit(v@[i as int]) is None);
            return false;
        }
        i = i + 1;
    }
    true
}

/// The digits of an address: without white space around it and without `0x`.
pub open spec fn address_digits(value: Seq<char>) -> Seq<char> {
    match strip_prefix(trim(value), "0x"@) {
        Some(t) => t,
        None => trim(value),
    }
}

/// `value` is an address of an EVM chain.
pub open spec fn is_evm_address(value: Seq<char>) -> bool {
    address_digits(value).len() == 40 && all_hex(address_digits(value))
}

/// The refusal of a text that is no address.
pub open spec fn address_refusal(value: Seq<char>) -> CliErrorView {
    CliErrorView::InvalidArgs(
        "invalid EVM address '"@ + value + "' (expected 0x + 40 hex chars)"@,
    )
}

/// The digits of an address in lower case, without `0x`.
pub fn parse_evm_address(value: &str) -> (r: Result<String, CliError>)
    ensures
        match r {
            Ok(a) => is_evm_address(value@) && a@ == ascii_lower(address_digits(value@)),
            Err(e) => !is_evm_address(value@) && e@ == address_refusal(value@),
        },
{
    let t = trimmed(value);
    let digits = match without_prefix(t.as_str(), "0x") {
        Some(d) => d,
        None => t,
    };
    let v = chars_of(digits.as_str());
    if v.len() != 40 || !is_all_hex(&v) {
        return Err(
            invalid_args(
                "invalid EVM address '".to_owned().concat(value).concat(
                    "' (expected 0x + 40 hex chars)",
                ),
            ),
        );
    }
    Ok(to_ascii_lower(digits.as_str()))
}

/// What a transfer is asked for.
#[derive(Debug)]
pub struct SendArgs {
    pub chain: String,
    /// The chain is an EVM chain.
    pub evm: bool,
    pub wallet: String,
    pub to: String,
    pub token: String,
    pub amount: String,
    pub rpc_url: String,
    /// The passphrase at hand is an API token.
    pub token_credential: bool,
}

/// A transfer that can begin.
#[derive(Debug)]
pub struct SendPlan {
    pub wallet: String,
    pub recipient: String,
    pub token: String,
    pub amount: u128,
    pub rpc: String,
}

/// [`SendPlan`] with its texts as sequences of characters.
pub struct SendView {
    pub wallet: Seq<char>,
    pub recipient: Seq<char>,
    pub token: Seq<char>,
    pub amount: u128,
    pub rpc: Seq<char>,
}

impl View for SendPlan {
    type V = SendView;

    open spec fn view(&self) -> SendView {
        SendView {
            wallet: self.wallet@,
            recipient: self.recipient@,
            token: self.token@,
            amount: self.amount,
            rpc: self.rpc@,
        }
    }
}

/// The transfer that the arguments ask for. A wallet that is not named is the
/// default one.
pub open spec fn planned(a: SendArgs) -> Result<SendView, CliErrorView> {
    if !a.evm {
        Err(
            CliErrorView::InvalidArgs(
                "send supports EVM chains only (got '"@ + a.chain@ + "')"@,
            ),
        )
    } else if !is_evm_address(a.to@) {
        Err(address_refusal(a.to@))
    } else if !is_evm_address(a.token@) {
        Err(address_refusal(a.token@))
    } else {
        match parsed(trim(a.amount@), u128::MAX as int) {
            None => Err(
                CliErrorView::InvalidArgs(
                    "invalid amount '"@ + a.amount@ + "' (expect integer base units)"@,
                ),
            ),
            Some(n) => if a.token_credential {
                Err(
                    CliErrorView::InvalidArgs(
                        "send requires the owner passphrase (API tokens are not supported yet)"@,
                    ),
                )
            } else {
                Ok(
                    SendView {
                        wallet: if trim(a.wallet@).len() == 0 {
                            "default"@
                        } else {
                            a.wallet@
                        },
                        recipient: ascii_lower(address_digits(a.to@)),
                        token: ascii_lower(address_digits(a.token@)),
                        amount: n as u128,
                        rpc: trim(a.rpc_url@),
                    },
                )
            },
        }
    }
}

/// The transfer that the arguments ask for.
pub fn plan(a: &SendArgs) -> (r: Result<SendPlan, CliError>)
    ensures
        match r {
            Ok(p) => planned(*a) == Ok::<SendView, CliErrorView>(p@),
            Err(e) => planned(*a) == Err::<SendView, CliErrorView>(e@),
        },
{
    if !a.evm {
        return Err(
            invalid_args(
                "send supports EVM chains only (got '".to_owned().concat(a.chain.as_str()).concat(
                    "')",
                ),
            ),
        );
    }
    let wallet = if trimmed(a.wallet.as_str()).as_str().unicode_len() == 0 {
        "default".to_owned()
    } else {
        a.wallet.clone()
    };
    let recipient = match parse_evm_address(a.to.as_str()) {
        Ok(r) => r,
        Err(e) => return Err(e),
    };
    let token = match parse_evm_address(a.token.as_str()) {
        Ok(t) => t,
        Err(e) => return Err(e),
    };
    let amount: u128 = match parse_unsigned(trimmed(a.amount.as_str()).as_str(), u128::MAX) {
        Some(n) => n,
        None => {
            return Err(
                invalid_args(
                    "invalid amount '".to_owned().concat(a.amount.as_str()).concat(
                        "' (expect integer base units)",
                    ),
                ),
            );
        },
    };
    if a.token_credential {
        return Err(
            invalid("send requires the owner passphrase (API tokens are not supported yet)"),
        );
    }
    Ok(SendPlan { wallet, recipient, token, amount, rpc: trimmed(a.rpc_url.as_str()) })
}

// ---------------------------------------------------------------------------
// The transaction
// ---------------------------------------------------------------------------

/// A number as `k` big-endian bytes.
pub open spec fn be_bytes(n: nat, k: nat) -> Seq<u8>
    decreases k,
{
    if k == 0 {
        Seq::empty()
    } else {
        be_bytes(n / 256, (k - 1) as nat).push((n % 256) as u8)
    }
}

fn push_be(out: &mut Vec<u8>, n: u128, k: usize)
    ensures
        final(out)@ == old(out)@ + be_bytes(n as nat, k as nat),
    decreases k,
{
    if k > 0 {
        let ghost start = out@;
        push_be(out, n / 256, k - 1);
        out.push((n % 256) as u8);
        assert(out@ =~= start + be_bytes(n as nat, k as nat));
    } else {
        assert(out@ + be_bytes(n as nat, 0) =~= out@);
    }
}

/// Zeros.
pub open spec fn zeros(k: nat) -> Seq<u8> {
    Seq::new(k, |i: int| 0u8)
}

fn push_zeros(out: &mut Vec<u8>, k: usize)
    ensures
        final(out)@ == old(out)@ + zeros(k as nat),
{
    let ghost start = out@;
    let mut i: usize = 0;
    assert(start + zeros(0) =~= start);
    while i < k
        invariant
            i <= k,
            out@ == start + zeros(i as nat),
        decreases k - i,
    {
        out.push(0);
        assert(start + zeros((i + 1) as nat) =~= (start + zeros(i as nat)).push(0));
        i = i + 1;
    }
}

/// The call of `transfer(address,uint256)`: the selector, the recipient and
/// the amount, each of the two right-aligned in 32 bytes.
pub open spec fn transfer_data(recipient: Seq<u8>, amount: u128) -> Seq<u8> {
    seq![0xa9u8, 0x05u8, 0x9cu8, 0xbbu8] + zeros(12) + recipient + zeros(16) + be_bytes(
        amount as nat,
        16,
    )
}

/// The recipient and the amount of a call, when its data is a call of
/// `transfer(address,uint256)`: the selector, then two words of 32 bytes, an
/// address in the last 20 of the first and a number in the second.
pub open spec fn read_transfer_call(data: Seq<u8>) -> Option<(Seq<u8>, nat)> {
    if data.len() == 68 && data.subrange(0, 4) == seq![0xa9u8, 0x05u8, 0x9cu8, 0xbbu8] && (
    forall|i: int| 4 <= i < 16 ==> #[trigger] data[i] == 0) {
        Some((data.subrange(16, 36), be_value(data.subrange(36, 68))))
    } else {
        None
    }
}

/// The power of 256 is above every number of `k` bytes.
spec fn byte_limit(k: nat) -> nat
    decreases k,
{
    if k == 0 {
        1
    } else {
        256 * byte_limit((k - 1) as nat)
    }
}

proof fn lemma_be_bytes(n: nat, k: nat)
    requires
        n < byte_limit(k),
    ensures
        be_bytes(n, k).len() == k,
        be_value(be_bytes(n, k)) == n,
    decreases k,
{
    if k > 0 {
        assert(n / 256 < byte_limit((k - 1) as nat)) by (nonlinear_arith)
            requires
                n < 256 * byte_limit((k - 1) as nat),
        ;
        lemma_be_bytes(n / 256, (k - 1) as nat);
        assert(be_bytes(n, k).drop_last() =~= be_bytes(n / 256, (k - 1) as nat));
        assert(n == (n / 256) * 256 + n % 256) by (nonlinear_arith);
    } else {
        assert(be_value(Seq::<u8>::empty()) == 0);
    }
}

proof fn lemma_zeros_in_front(k: nat, b: Seq<u8>)
    ensures
        be_value(zeros(k) + b) == be_value(b),
    decreases k,
{
    if k > 0 {
        lemma_zeros_in_front((k - 1) as nat, b);
        lemma_leading_zero(zeros((k - 1) as nat) + b);
        assert(zeros(k) + b =~= seq![0u8] + (zeros((k - 1) as nat) + b));
    } else {
        assert(zeros(0) + b =~= b);
    }
}

/// The call of a transfer, read as a call of `transfer(address,uint256)`, sends
/// the amount to the recipient.
pub proof fn law_transfer_call_names_recipient_and_amount(recipient: Seq<u8>, amount: u128)
    requires
        recipient.len() == 20,
    ensures
        read_transfer_call(transfer_data(recipient, amount)) == Some((recipient, amount as nat)),
{
    let d = transfer_data(recipient, amount);
    assert(byte_limit(16) == 0x1_0000_0000_0000_0000_0000_0000_0000_0000) by {
        reveal_with_fuel(byte_limit, 17);
    }
    lemma_be_bytes(amount as nat, 16);
    lemma_zeros_in_front(16, be_bytes(amount as nat, 16));
    assert(d.subrange(0, 4) =~= seq![0xa9u8, 0x05u8, 0x9cu8, 0xbbu8]);
    assert(d.subrange(16, 36) =~= recipient);
    assert(d.subrange(36, 68) =~= zeros(16) + be_bytes(amount as nat, 16));
}

/// The call of `transfer(address,uint256)`.
pub fn build_transfer_data(to: &str, amount: u128) -> (r: Result<Vec<u8>, CliError>)
    ensures
        match r {
            Ok(d) => is_hex(to@) && d@ == transfer_data(hex_bytes(to@), amount) && (hex_bytes(
                to@,
            ).len() == 20 ==> read_transfer_call(d@) == Some((hex_bytes(to@), amount as nat))),
            Err(e) => !is_hex(to@) && e@ == CliErrorView::InvalidArgs(
                "bad recipient hex: "@ + hex_fault(to@),
            ),
        },
{
    let recipient = match hex_decode(to) {
        Ok(b) => b,
        Err(e) => {
            return Err(invalid_args("bad recipient hex: ".to_owned().concat(e.as_str())));
        },
    };
    let mut out: Vec<u8> = Vec::new();
    out.push(0xa9);
    out.push(0x05);
    out.push(0x9c);
    out.push(0xbb);
    assert(out@ =~= seq![0xa9u8, 0x05u8, 0x9cu8, 0xbbu8]);
    push_zeros(&mut out, 12);
    append(&mut out, recipient.as_slice());
    push_zeros(&mut out, 16);
    push_be(&mut out, amount, 16);
    proof {
        if hex_bytes(to@).len() == 20 {
            law_transfer_call_names_recipient_and_amount(hex_bytes(to@), amount);
        }
    }
    Ok(out)
}

/// The fees of a transaction.
#[derive(Clone, Copy, Debug, PartialEq, Eq, Structural)]
pub struct Fees {
    pub max_fee: u64,
    pub max_priority_fee: u64,
}

/// The fees for a gas price and a priority fee: never less than the priority
/// fee in all.
pub fn fees(gas_price: u64, priority: u64) -> (f: Fees)
    ensures
        f.max_fee == if gas_price < priority {
            priority
        } else {
            gas_price
        },
        f.max_priority_fee == priority,
        f.max_priority_fee <= f.max_fee,
        gas_price <= f.max_fee,
        f.max_fee == gas_price || f.max_fee == f.max_priority_fee,
{
    let max_fee: u64 = if gas_price < priority {
        priority
    } else {
        gas_price
    };
    Fees { max_fee, max_priority_fee: priority }
}

/// The items of an EIP-1559 transaction that sends no value and has an empty
/// access list.
pub open spec fn tx_items(
    chain_id: u64,
    nonce: u64,
    f: Fees,
    gas_limit: u64,
    to: Seq<u8>,
    data: Seq<u8>,
) -> Seq<u8> {
    rlp_bytes(uint_bytes(chain_id as nat)) + rlp_bytes(uint_bytes(nonce as nat)) + rlp_bytes(
        uint_bytes(f.max_priority_fee as nat),
    ) + rlp_bytes(uint_bytes(f.max_fee as nat)) + rlp_bytes(uint_bytes(gas_limit as nat))
        + rlp_bytes(to) + rlp_bytes(Seq::empty()) + rlp_bytes(data) + rlp_list(Seq::empty())
}

/// What the unsigned transaction says: fees and gas as given, no value, the
/// data, and no access list.
pub open spec fn call_transaction(
    chain_id: u64,
    nonce: u64,
    f: Fees,
    gas_limit: u64,
    to: Seq<u8>,
    data: Seq<u8>,
) -> Transaction {
    Transaction {
        chain_id: chain_id as nat,
        nonce: nonce as nat,
        max_priority_fee: f.max_priority_fee as nat,
        max_fee: f.max_fee as nat,
        gas_limit: gas_limit as nat,
        to,
        value: 0,
        data,
        access_list: Seq::empty(),
    }
}

/// Reading the unsigned transaction back gives what it was built from: every
/// field in its own place, and no value.
pub proof fn law_unsigned_transactions_are_read_back(
    chain_id: u64,
    nonce: u64,
    f: Fees,
    gas_limit: u64,
    to: Seq<u8>,
    data: Seq<u8>,
)
    requires
        tx_items(chain_id, nonce, f, gas_limit, to, data).len() <= u64::MAX,
    ensures
        read_transaction(
            seq![0x02u8] + rlp_list(tx_items(chain_id, nonce, f, gas_limit, to, data)),
        ) matches Some(t) && t.chain_id == chain_id && t.nonce == nonce && t.max_priority_fee
            == f.max_priority_fee && t.max_fee == f.max_fee && t.gas_limit == gas_limit && t.to
            == to && t.value == 0 && t.data == data && t.access_list == Seq::<u8>::empty(),
{
    lemma_u64_len(chain_id);
    lemma_u64_len(nonce);
    lemma_u64_len(f.max_priority_fee);
    lemma_u64_len(f.max_fee);
    lemma_u64_len(gas_limit);
    let items = tx_items(chain_id, nonce, f, gas_limit, to, data);
    assert(to.len() <= items.len());
    assert(data.len() <= items.len());
    lemma_transaction_is_read_back(
        call_transaction(chain_id, nonce, f, gas_limit, to, data),
        items,
    );
}

/// The unsigned transaction.
pub fn unsigned_tx(
    chain_id: u64,
    nonce: u64,
    f: Fees,
    gas_limit: u64,
    to: &Vec<u8>,
    data: &Vec<u8>,
) -> (r: Vec<u8>)
    ensures
        r@ == seq![0x02u8] + rlp_list(tx_items(chain_id, nonce, f, gas_limit, to@, data@)),
        read_transaction(r@) == Some(call_transaction(chain_id, nonce, f, gas_limit, to@, data@)),
{
    let none: Vec<u8> = Vec::new();
    let mut items = encode_bytes(rlp_uint(chain_id).as_slice());
    append(&mut items, encode_bytes(rlp_uint(nonce).as_slice()).as_slice());
    append(&mut items, encode_bytes(rlp_uint(f.max_priority_fee).as_slice()).as_slice());
    append(&mut items, encode_bytes(rlp_uint(f.max_fee).as_slice()).as_slice());
    append(&mut items, encode_bytes(rlp_uint(gas_limit).as_slice()).as_slice());
    append(&mut items, encode_bytes(to.as_slice()).as_slice());
    append(&mut items, encode_bytes(none.as_slice()).as_slice());
    append(&mut items, encode_bytes(data.as_slice()).as_slice());
    append(&mut items, encode_list(none.as_slice()).as_slice());
    assert(none@ =~= Seq::<u8>::empty());
    let mut out: Vec<u8> = Vec::new();
    out.push(0x02);
    assert(out@ =~= seq![0x02u8]);
    append(&mut out, encode_list(items.as_slice()).as_slice());
    proof {
        assert(items@.len() == items.len());
        law_unsigned_transactions_are_read_back(chain_id, nonce, f, gas_limit, to@, data@);
    }
    out
}

/// The unsigned transaction of a transfer: to the token's contract, with the
/// call as its data.
pub fn transfer_tx(p: &SendPlan, chain_id: u64, nonce: u64, f: Fees, gas_limit: u64) -> (r: Result<
    Vec<u8>,
    CliError,
>)
    ensures
        match r {
            Ok(tx) => is_hex(p.recipient@) && is_hex(p.token@) && tx@ == seq![0x02u8] + rlp_list(
                tx_items(
                    chain_id,
                    nonce,
                    f,
                    gas_limit,
                    hex_bytes(p.token@),
                    transfer_data(hex_bytes(p.recipient@), p.amount),
                ),
            ) && (read_transaction(tx@) matches Some(t) && t.chain_id == chain_id && t.nonce
                == nonce && t.max_priority_fee == f.max_priority_fee && t.max_fee == f.max_fee
                && t.gas_limit == gas_limit && t.to == hex_bytes(p.token@) && t.value == 0 && (
            hex_bytes(p.recipient@).len() == 20 ==> read_transfer_call(t.data) == Some(
                (hex_bytes(p.recipient@), p.amount as nat),
            ))),
            Err(e) => if !is_hex(p.recipient@) {
                e@ == CliErrorView::InvalidArgs("bad recipient hex: "@ + hex_fault(p.recipient@))
            } else {
                !is_hex(p.token@) && e@ == CliErrorView::InvalidArgs(
                    "invalid token address hex: "@ + hex_fault(p.token@),
                )
            },
        },
{
    let data = match build_transfer_data(p.recipient.as_str(), p.amount) {
        Ok(d) => d,
        Err(e) => return Err(e),
    };
    let to = match hex_decode(p.token.as_str()) {
        Ok(b) => b,
        Err(e) => {
            return Err(invalid_args("invalid token address hex: ".to_owned().concat(e.as_str())));
        },
    };
    Ok(unsigned_tx(chain_id, nonce, f, gas_limit, &to, &data))
}

// ---------------------------------------------------------------------------
// JSON-RPC
// ---------------------------------------------------------------------------

/// The members of a request.
pub open spec fn request_members(method: Seq<char>, params: serde_json::Value) -> Map<
    Seq<char>,
    serde_json::Value,
> {
    Map::<Seq<char>, serde_json::Value>::empty().insert(
        "jsonrpc"@,
        json_of(SettingView::Text("2.0"@)),
    ).insert("method"@, json_of(SettingView::Text(method))).insert("params"@, params).insert(
        "id"@,
        json_of(SettingView::Number(1)),
    )
}

/// A request to a node.
pub fn rpc_request(method: &str, params: serde_json::Value) -> (r: serde_json::Value)
    ensures
        json_members(r) == Some(request_members(method@, params)),
{
    let doc = empty_object();
    let doc = with_member(doc, "jsonrpc", setting_value(Setting::Text("2.0".to_owned())));
    let doc = with_member(doc, "method", setting_value(Setting::Text(method.to_owned())));
    let doc = with_member(doc, "params", params);
    with_member(doc, "id", setting_value(Setting::Number(1)))
}

/// The parameters of a request for the number of transactions of an account.
pub fn nonce_params(from: &str) -> (r: serde_json::Value)
    ensures
        json_items(r) == Some(
            seq![json_of(SettingView::Text(from@)), json_of(SettingView::Text("pending"@))],
        ),
{
    let mut v: Vec<serde_json::Value> = Vec::new();
    v.push(setting_value(Setting::Text(from.to_owned())));
    v.push(setting_value(Setting::Text("pending".to_owned())));
    assert(v@ =~= seq![
        json_of(SettingView::Text(from@)),
        json_of(SettingView::Text("pending"@)),
    ]);
    array(v)
}

/// The members of the call that gas is estimated for.
pub open spec fn call_members(from: Seq<char>, token: Seq<char>, data: Seq<u8>) -> Map<
    Seq<char>,
    serde_json::Value,
> {
    Map::<Seq<char>, serde_json::Value>::empty().insert(
        "from"@,
        json_of(SettingView::Text(from)),
    ).insert("to"@, json_of(SettingView::Text("0x"@ + token))).insert(
        "data"@,
        json_of(SettingView::Text("0x"@ + hex_text(data))),
    )
}

/// The parameters of a gas estimate.
pub fn estimate_params(from: &str, token: &str, data: &Vec<u8>) -> (r: serde_json::Value)
    ensures
        json_items(r) matches Some(v) && v.len() == 1 && json_members(v[0]) == Some(
            call_members(from@, token@, data@),
        ),
{
    let doc = empty_object();
    let doc = with_member(doc, "from", setting_value(Setting::Text(from.to_owned())));
    let doc = with_member(
        doc,
        "to",
        setting_value(Setting::Text("0x".to_owned().concat(token))),
    );
    let doc = with_member(
        doc,
        "data",
        setting_value(
            Setting::Text("0x".to_owned().concat(hex_encode(data.as_slice()).as_str())),
        ),
    );
    let mut v: Vec<serde_json::Value> = Vec::new();
    v.push(doc);
    array(v)
}

/// `v` is what a reply to `method` gives: its result, or `null` without one.
pub open spec fn is_reply(v: serde_json::Value, doc: serde_json::Value) -> bool {
    match json_members(doc) {
        Some(m) => if m.contains_key("result"@) {
            v == m["result"@]
        } else {
            json_is_null(v) && json_string(v) is None
        },
        None => json_is_null(v) && json_string(v) is None,
    }
}

/// The error that a reply holds.
pub open spec fn reply_error(doc: serde_json::Value) -> Option<serde_json::Value> {
    match json_members(doc) {
        Some(m) => if m.contains_key("error"@) {
            Some(m["error"@])
        } else {
            None
        },
        None => None,
    }
}

/// What a reply to `method` gives.
pub fn rpc_reply(method: &str, text: &str) -> (r: Result<serde_json::Value, CliError>)
    ensures
        match json_document(text@) {
            Err(msg) => r matches Err(e) && e@ == CliErrorView::InvalidArgs(
                "rpc '"@ + method@ + "' bad JSON: "@ + msg,
            ),
            Ok(doc) => match reply_error(doc) {
                Some(x) => r matches Err(e) && e@ == CliErrorView::InvalidArgs(
                    "rpc '"@ + method@ + "' error: "@ + json_compact(x),
                ),
                None => r matches Ok(v) && is_reply(v, doc),
            },
        },
{
    let doc = match parse(text) {
        Ok(d) => d,
        Err(e) => {
            return Err(
                invalid_args(
                    "rpc '".to_owned().concat(method).concat("' bad JSON: ").concat(e.as_str()),
                ),
            );
        },
    };
    if let Some(x) = member(&doc, "error") {
        return Err(
            invalid_args(
                "rpc '".to_owned().concat(method).concat("' error: ").concat(
                    compact(&x).as_str(),
                ),
            ),
        );
    }
    match member(&doc, "result") {
        Some(v) => Ok(v),
        None => Ok(null()),
    }
}

/// A request that a node refused.
pub fn rpc_status_error(method: &str, status: &str, text: &str) -> (e: CliError)
    ensures
        e@ == CliErrorView::InvalidArgs(
            "rpc '"@ + method@ + "' failed (HTTP "@ + status@ + "): "@ + text@,
        ),
{
    invalid_args(
        "rpc '".to_owned().concat(method).concat("' failed (HTTP ").concat(status).concat(
            "): ",
        ).concat(text),
    )
}

/// `s` without any `0x` in front.
pub open spec fn without_all_0x(s: Seq<char>) -> Seq<char>
    decreases s.len(),
{
    match strip_prefix(s, "0x"@) {
        Some(t) => if t.len() < s.len() {
            without_all_0x(t)
        } else {
            t
        },
        None => s,
    }
}

/// The number that hexadecimal digits stand for.
pub open spec fn hex_value(s: Seq<char>) -> int
    decreases s.len(),
{
    if s.len() == 0 {
        0
    } else {
        hex_value(s.drop_last()) * 16 + hex_digit(s.last())->0
    }
}

/// The digits of a number that may begin with a plus.
pub open spec fn hex_number_digits(s: Seq<char>) -> Seq<char> {
    if s.len() > 0 && s[0] == '+' {
        s.skip(1)
    } else {
        s
    }
}

/// The number that `s` is, in hexadecimal, if it fits 64 bits.
pub open spec fn hex_number(s: Seq<char>) -> Option<int> {
    let d = hex_number_digits(s);
    if d.len() > 0 && all_hex(d) && hex_value(d) <= u64::MAX {
        Some(hex_value(d))
    } else {
        None
    }
}

/// What the standard library says is wrong with a number.
pub uninterp spec fn hex_number_fault(s: Seq<char>) -> Seq<char>;

/// `u64::from_str_radix` with radix 16: the number of at least one digit, in
/// either case and with an optional plus in front, when it fits, and the
/// error's text otherwise.
#[verifier::external_body]
fn from_hex(s: &str) -> (r: Result<u64, String>)
    ensures
        match r {
            Ok(n) => hex_number(s@) == Some(n as int),
            Err(e) => hex_number(s@) is None && e@ == hex_number_fault(s@),
        },
{
    u64::from_str_radix(s, 16).map_err(|e| e.to_string())
}

fn strip_all_0x(s: &str) -> (r: String)
    ensures
        r@ == without_all_0x(s@),
{
    let mut t = s.to_owned();
    let ghost all = without_all_0x(s@);
    let mut more = starts_with(t.as_str(), "0x");
    proof {
        reveal_strlit("0x");
    }
    while more
        invariant
            all == without_all_0x(t@),
            more == "0x"@.is_prefix_of(t@),
            "0x"@.len() == 2,
        decreases t@.len(),
    {
        let v = chars_of(t.as_str());
        t = text_range(&v, 2, v.len());
        assert(t@ =~= v@.skip(2));
        more = starts_with(t.as_str(), "0x");
    }
    t
}

/// The quantity that a result is.
pub fn rpc_hex_to_u64(result: &serde_json::Value, label: &str) -> (r: Result<u64, CliError>)
    ensures
        match json_string(*result) {
            None => r matches Err(e) && e@ == CliErrorView::InvalidArgs(
                "'"@ + label@ + "' returned non-string: "@ + json_compact(*result),
            ),
            Some(s) => match hex_number(without_all_0x(s)) {
                Some(n) => r matches Ok(m) && m == n,
                None => r matches Err(e) && e@ == CliErrorView::InvalidArgs(
                    "'"@ + label@ + "' bad hex '"@ + s + "': "@ + hex_number_fault(
                        without_all_0x(s),
                    ),
                ),
            },
        },
{
    let s = match text_value(result) {
        Some(s) => s,
        None => {
            return Err(
                invalid_args(
                    "'".to_owned().concat(label).concat("' returned non-string: ").concat(
                        compact(result).as_str(),
                    ),
                ),
            );
        },
    };
    match from_hex(strip_all_0x(s.as_str()).as_str()) {
        Ok(n) => Ok(n),
        Err(e) => Err(
            invalid_args(
                "'".to_owned().concat(label).concat("' bad hex '").concat(s.as_str()).concat(
                    "': ",
                ).concat(e.as_str()),
            ),
        ),
    }
}

// ---------------------------------------------------------------------------
// The report
// ---------------------------------------------------------------------------

/// The members of the document that reports a transfer.
pub open spec fn report_members(
    p: SendView,
    chain: Seq<char>,
    tx_hash: Seq<char>,
    from: Seq<char>,
    chain_id: u64,
    nonce: u64,
    gas_limit: u64,
) -> Map<Seq<char>, serde_json::Value> {
    Map::<Seq<char>, serde_json::Value>::empty().insert(
        "tx_hash"@,
        json_of(SettingView::Text(tx_hash)),
    ).insert("chain"@, json_of(SettingView::Text(chain))).insert(
        "chain_id"@,
        json_of(SettingView::Number(chain_id)),
    ).insert("token"@, json_of(SettingView::Text("0x"@ + p.token))).insert(
        "to"@,
        json_of(SettingView::Text("0x"@ + p.recipient)),
    ).insert("from"@, json_of(SettingView::Text(from))).insert(
        "amount"@,
        json_of(SettingView::Text(decimal(p.amount as int))),
    ).insert("nonce"@, json_of(SettingView::Number(nonce))).insert(
        "gas_limit"@,
        json_of(SettingView::Number(gas_limit)),
    )
}

/// The document that reports a transfer.
pub fn report(
    p: &SendPlan,
    chain: &str,
    tx_hash: &str,
    from: &str,
    chain_id: u64,
    nonce: u64,
    gas_limit: u64,
) -> (r: serde_json::Value)
    ensures
        json_members(r) == Some(
            report_members(p@, chain@, tx_hash@, from@, chain_id, nonce, gas_limit),
        ),
{
    let doc = empty_object();
    let doc = with_member(doc, "tx_hash", setting_value(Setting::Text(tx_hash.to_owned())));
    let doc = with_member(doc, "chain", setting_value(Setting::Text(chain.to_owned())));
    let doc = with_member(doc, "chain_id", setting_value(Setting::Number(chain_id)));
    let doc = with_member(
        doc,
        "token",
        setting_value(Setting::Text("0x".to_owned().concat(p.token.as_str()))),
    );
    let doc = with_member(
        doc,
        "to",
        setting_value(Setting::Text("0x".to_owned().concat(p.recipient.as_str()))),
    );
    let doc = with_member(doc, "from", setting_value(Setting::Text(from.to_owned())));
    let doc = with_member(doc, "amount", setting_value(Setting::Text(dec(p.amount))));
    let doc = with_member(doc, "nonce", setting_value(Setting::Number(nonce)));
    with_member(doc, "gas_limit", setting_value(Setting::Number(gas_limit)))
}

/// An address that was accepted can always be put into a transaction: its
/// digits are whole bytes, twenty of them.
pub proof fn law_accepted_addresses_encode(value: Seq<char>)
    requires
        is_evm_address(value),
    ensures
        is_hex(ascii_lower(address_digits(value))),
        hex_bytes(ascii_lower(address_digits(value))).len() == 20,
{
    let d = address_digits(value);
    let l = ascii_lower(d);
    assert forall|i: int| 0 <= i < l.len() implies hex_digit(#[trigger] l[i]) is Some by {
        assert(hex_digit(d[i]) is Some);
    }
}

/// The bytes of digits do not depend on their case.
proof fn lemma_case_keeps_bytes(d: Seq<char>)
    requires
        is_hex(d),
    ensures
        hex_bytes(ascii_lower(d)) == hex_bytes(d),
{
    let l = ascii_lower(d);
    assert forall|i: int| 0 <= i < d.len() / 2 implies #[trigger] hex_bytes(l)[i] == hex_bytes(
        d,
    )[i] by {
        assert(hex_digit(d[2 * i]) is Some && hex_digit(d[2 * i + 1]) is Some);
        assert(hex_digit(l[2 * i]) == hex_digit(d[2 * i]));
        assert(hex_digit(l[2 * i + 1]) == hex_digit(d[2 * i + 1]));
    }
    assert(hex_bytes(l) =~= hex_bytes(d));
}

/// A planned transfer, put into a transaction and read back, goes to the token
/// that was asked for, sends no value, and calls it to send the amount that was
/// asked for to the recipient that was asked for.
pub proof fn law_planned_transfers_pay_the_recipient(
    a: SendArgs,
    p: SendView,
    chain_id: u64,
    nonce: u64,
    f: Fees,
    gas_limit: u64,
)
    requires
        planned(a) == Ok::<SendView, CliErrorView>(p),
    ensures
        a.evm && !a.token_credential,
        parsed(trim(a.amount@), u128::MAX as int) == Some(p.amount as int),
        read_transaction(
            seq![0x02u8] + rlp_list(
                tx_items(
                    chain_id,
                    nonce,
                    f,
                    gas_limit,
                    hex_bytes(p.token),
                    transfer_data(hex_bytes(p.recipient), p.amount),
                ),
            ),
        ) matches Some(t) && t.chain_id == chain_id && t.nonce == nonce && t.to == hex_bytes(
            address_digits(a.token@),
        ) && t.value == 0 && read_transfer_call(t.data) == Some(
            (hex_bytes(address_digits(a.to@)), p.amount as nat),
        ),
{
    law_parsed_numbers_are_in_range(trim(a.amount@), u128::MAX as int);
    law_accepted_addresses_encode(a.to@);
    law_accepted_addresses_encode(a.token@);
    lemma_case_keeps_bytes(address_digits(a.to@));
    lemma_case_keeps_bytes(address_digits(a.token@));
    law_transfer_call_names_recipient_and_amount(hex_bytes(p.recipient), p.amount);
    lemma_u64_len(chain_id);
    lemma_u64_len(nonce);
    lemma_u64_len(f.max_priority_fee);
    lemma_u64_len(f.max_fee);
    lemma_u64_len(gas_limit);
    lemma_short(uint_bytes(chain_id as nat));
    lemma_short(uint_bytes(nonce as nat));
    lemma_short(uint_bytes(f.max_priority_fee as nat));
    lemma_short(uint_bytes(f.max_fee as nat));
    lemma_short(uint_bytes(gas_limit as nat));
    lemma_short(hex_bytes(p.token));
    lemma_short(transfer_data(hex_bytes(p.recipient), p.amount));
    law_unsigned_transactions_are_read_back(
        chain_id,
        nonce,
        f,
        gas_limit,
        hex_bytes(p.token),
        transfer_data(hex_bytes(p.recipient), p.amount),
    );
}

/// Short bytes have a short encoding.
proof fn lemma_short(b: Seq<u8>)
    requires
        b.len() <= 100,
    ensures
        rlp_bytes(b).len() <= 200,
{
    if b.len() > 55 {
        lemma_u64_len(b.len() as u64);
    }
}

/// The report of a transfer shows each value under its own name, and nothing
/// else.
pub proof fn law_reports_show_each_value(
    p: SendView,
    chain: Seq<char>,
    tx_hash: Seq<char>,
    from: Seq<char>,
    chain_id: u64,
    nonce: u64,
    gas_limit: u64,
)
    ensures
        ({
            let m = report_members(p, chain, tx_hash, from, chain_id, nonce, gas_limit);
            &&& m.dom() == set![
                "tx_hash"@,
                "chain"@,
                "chain_id"@,
                "token"@,
                "to"@,
                "from"@,
                "amount"@,
                "nonce"@,
                "gas_limit"@,
            ]
            &&& m["tx_hash"@] == json_of(SettingView::Text(tx_hash))
            &&& m["chain"@] == json_of(SettingView::Text(chain))
            &&& m["chain_id"@] == json_of(SettingView::Number(chain_id))
            &&& m["token"@] == json_of(SettingView::Text("0x"@ + p.token))
            &&& m["to"@] == json_of(SettingView::Text("0x"@ + p.recipient))
            &&& m["from"@] == json_of(SettingView::Text(from))
            &&& m["amount"@] == json_of(SettingView::Text(decimal(p.amount as int)))
            &&& m["nonce"@] == json_of(SettingView::Number(nonce))
            &&& m["gas_limit"@] == json_of(SettingView::Number(gas_limit))
        }),
{
    reveal_strlit("tx_hash");
    reveal_strlit("chain");
    reveal_strlit("chain_id");
    reveal_strlit("token");
    reveal_strlit("to");
    reveal_strlit("from");
    reveal_strlit("amount");
    reveal_strlit("nonce");
    reveal_strlit("gas_limit");
    assert("tx_hash"@.len() == 7 && "chain"@.len() == 5 && "chain_id"@.len() == 8 && "token"@.len()
        == 5 && "to"@.len() == 2 && "from"@.len() == 4 && "amount"@.len() == 6 && "nonce"@.len()
        == 5 && "gas_limit"@.len() == 9);
    assert("chain"@[0] == 'c' && "token"@[0] == 't' && "nonce"@[0] == 'n');
    let m = report_members(p, chain, tx_hash, from, chain_id, nonce, gas_limit);
    assert(m.dom() =~= set![
        "tx_hash"@,
        "chain"@,
        "chain_id"@,
        "token"@,
        "to"@,
        "from"@,
        "amount"@,
        "nonce"@,
        "gas_limit"@,
    ]);
}

/// The call whose gas is estimated goes from the account to the token with the
/// data; a request carries its method and parameters.
pub proof fn law_requests_carry_their_values(
    from: Seq<char>,
    token: Seq<char>,
    data: Seq<u8>,
    method: Seq<char>,
    params: serde_json::Value,
)
    ensures
        call_members(from, token, data).dom() == set!["from"@, "to"@, "data"@],
        call_members(from, token, data)["from"@] == json_of(SettingView::Text(from)),
        call_members(from, token, data)["to"@] == json_of(SettingView::Text("0x"@ + token)),
        call_members(from, token, data)["data"@] == json_of(
            SettingView::Text("0x"@ + hex_text(data)),
        ),
        request_members(method, params).dom() == set!["jsonrpc"@, "method"@, "params"@, "id"@],
        request_members(method, params)["method"@] == json_of(SettingView::Text(method)),
        request_members(method, params)["params"@] == params,
        request_members(method, params)["jsonrpc"@] == json_of(SettingView::Text("2.0"@)),
{
    reveal_strlit("from");
    reveal_strlit("to");
    reveal_strlit("data");
    reveal_strlit("jsonrpc");
    reveal_strlit("method");
    reveal_strlit("params");
    reveal_strlit("id");
    assert("from"@.len() == 4 && "to"@.len() == 2 && "data"@.len() == 4);
    assert("from"@[0] == 'f' && "data"@[0] == 'd');
    assert("jsonrpc"@.len() == 7 && "method"@.len() == 6 && "params"@.len() == 6 && "id"@.len()
        == 2);
    assert("method"@[0] == 'm' && "params"@[0] == 'p');
    assert(call_members(from, token, data).dom() =~= set!["from"@, "to"@, "data"@]);
    assert(request_members(method, params).dom() =~= set![
        "jsonrpc"@,
        "method"@,
        "params"@,
        "id"@,
    ]);
}

/// A transfer is planned exactly for an EVM chain, two addresses, an amount that
/// fits and the owner's passphrase; then the plan names what was asked for.
pub proof fn law_plans_name_what_was_asked_for(a: SendArgs)
    ensures
        planned(a) is Ok <==> a.evm && is_evm_address(a.to@) && is_evm_address(a.token@) && parsed(
            trim(a.amount@),
            u128::MAX as int,
        ) is Some && !a.token_credential,
        planned(a) matches Ok(p) ==> {
            &&& hex_bytes(p.recipient) == hex_bytes(address_digits(a.to@))
            &&& hex_bytes(p.token) == hex_bytes(address_digits(a.token@))
            &&& parsed(trim(a.amount@), u128::MAX as int) == Some(p.amount as int)
            &&& trim(a.wallet@).len() > 0 ==> p.wallet == a.wallet@
            &&& trim(a.wallet@).len() == 0 ==> p.wallet == "default"@
            &&& p.rpc == trim(a.rpc_url@)
        },
        is_evm_address(a.to@) <==> {
            let d = if "0x"@.is_prefix_of(trim(a.to@)) {
                trim(a.to@).skip("0x"@.len() as int)
            } else {
                trim(a.to@)
            };
            d.len() == 40 && is_hex(d)
        },
{
    law_parsed_numbers_are_in_range(trim(a.amount@), u128::MAX as int);
    if is_evm_address(a.to@) {
        lemma_case_keeps_bytes(address_digits(a.to@));
    }
    if is_evm_address(a.token@) {
        lemma_case_keeps_bytes(address_digits(a.token@));
    }
}

/// A quantity is read with or without `0x` in front, to the same number.
pub proof fn law_quantities_may_have_a_prefix(s: Seq<char>)
    ensures
        without_all_0x("0x"@ + s) == without_all_0x(s),
        all_hex(s) ==> hex_number(without_all_0x("0x"@ + s)) == hex_number(s),
{
    reveal_strlit("0x");
    assert("0x"@.is_prefix_of("0x"@ + s));
    assert(("0x"@ + s).skip(2) =~= s);
    if all_hex(s) && "0x"@.is_prefix_of(s) {
        assert(s[1] == "0x"@[1]);
        assert(hex_digit(s[1]) is None);
    }
}

/// The answer of a node is what stands at `result`, its error what stands at
/// `error`; without them there is no value and no error.
pub proof fn law_replies_are_results(v: serde_json::Value, doc: serde_json::Value)
    ensures
        json_members(doc) matches Some(m) ==> (m.contains_key("error"@) <==> reply_error(doc) is Some)
            && (reply_error(doc) matches Some(e) ==> e == m["error"@]),
        json_members(doc) is None ==> reply_error(doc) is None,
        is_reply(v, doc) && (json_members(doc) matches Some(m) && m.contains_key("result"@)) ==> v
            == json_members(doc)->0["result"@],
        is_reply(v, doc) && !(json_members(doc) matches Some(m) && m.contains_key("result"@))
            ==> json_is_null(v),
{
}

/// What is read of the value in a contract is the value itself, each part under its
/// own name.
pub proof fn law_send_plan_views_keep_each_value(x: SendPlan)
    ensures
        x@.wallet == x.wallet@,
        x@.recipient == x.recipient@,
        x@.token == x.token@,
        x@.amount == x.amount,
        x@.rpc == x.rpc@,
{
}

} // verus!
