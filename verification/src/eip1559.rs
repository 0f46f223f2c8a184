//! Reading unsigned EIP-1559 transactions.
use vstd::prelude::*;

use crate::rlp::{
    be_value, law_lists_are_read_back, law_uint_bytes_are_minimal, lemma_items_after_bytes,
    rlp_bytes, rlp_first, rlp_items, rlp_list, uint_bytes, RlpItem,
};

verus! {

/// What an unsigned EIP-1559 transaction says.
pub struct Transaction {
    pub chain_id: nat,
    pub nonce: nat,
    pub max_priority_fee: nat,
    pub max_fee: nat,
    pub gas_limit: nat,
    pub to: Seq<u8>,
    pub value: nat,
    pub data: Seq<u8>,
    /// The encoded entries of the access list.
    pub access_list: Seq<u8>,
}

/// The number that an item is: big-endian bytes without leading zeros.
pub open spec fn number_item(i: RlpItem) -> Option<nat> {
    match i {
        RlpItem::Bytes(b) => if b.len() > 0 && b[0] == 0 {
            None
        } else {
            Some(be_value(b))
        },
        RlpItem::List(_) => None,
    }
}

/// The bytes that an item is.
pub open spec fn bytes_item(i: RlpItem) -> Option<Seq<u8>> {
    match i {
        RlpItem::Bytes(b) => Some(b),
        RlpItem::List(_) => None,
    }
}

/// The encoded items of a list.
pub open spec fn list_item(i: RlpItem) -> Option<Seq<u8>> {
    match i {
        RlpItem::Bytes(_) => None,
        RlpItem::List(b) => Some(b),
    }
}

/// The transaction that nine items are, in the order of EIP-1559.
pub open spec fn transaction_of_items(v: Seq<RlpItem>) -> Option<Transaction> {
    if v.len() == 9 && number_item(v[0]) is Some && number_item(v[1]) is Some && number_item(
        v[2],
    ) is Some && number_item(v[3]) is Some && number_item(v[4]) is Some && bytes_item(v[5]) is Some
        && number_item(v[6]) is Some && bytes_item(v[7]) is Some && list_item(v[8]) is Some {
        Some(
            Transaction {
                chain_id: number_item(v[0])->0,
                nonce: number_item(v[1])->0,
                max_priority_fee: number_item(v[2])->0,
                max_fee: number_item(v[3])->0,
                gas_limit: number_item(v[4])->0,
                to: bytes_item(v[5])->0,
                value: number_item(v[6])->0,
                data: bytes_item(v[7])->0,
                access_list: list_item(v[8])->0,
            },
        )
    } else {
        None
    }
}

/// The unsigned transaction that bytes are: the type byte 2, then one list and
/// nothing behind it.
pub open spec fn read_transaction(tx: Seq<u8>) -> Option<Transaction> {
    if tx.len() > 0 && tx[0] == 2 {
        match rlp_first(tx.skip(1)) {
            Some((RlpItem::List(content), rest)) => if rest.len() == 0 {
                match rlp_items(content) {
                    Some(v) => transaction_of_items(v),
                    None => None,
                }
            } else {
                None
            },
            _ => None,
        }
    } else {
        None
    }
}

proof fn lemma_right_nested(
    a: Seq<u8>,
    b: Seq<u8>,
    c: Seq<u8>,
    d: Seq<u8>,
    e: Seq<u8>,
    f: Seq<u8>,
    g: Seq<u8>,
    h: Seq<u8>,
    i: Seq<u8>,
)
    ensures
        a + b + c + d + e + f + g + h + i == a + (b + (c + (d + (e + (f + (g + (h + i))))))),
{
    assert(a + b + c + d + e + f + g + h + i =~= a + (b + (c + (d + (e + (f + (g + (h + i))))))));
}

#[verifier::rlimit(50)]
#[verifier::spinoff_prover]
proof fn lemma_nine_items(
    a: Seq<u8>,
    b: Seq<u8>,
    c: Seq<u8>,
    d: Seq<u8>,
    e: Seq<u8>,
    f: Seq<u8>,
    g: Seq<u8>,
    h: Seq<u8>,
)
    requires
        a.len() <= u64::MAX,
        b.len() <= u64::MAX,
        c.len() <= u64::MAX,
        d.len() <= u64::MAX,
        e.len() <= u64::MAX,
        f.len() <= u64::MAX,
        g.len() <= u64::MAX,
        h.len() <= u64::MAX,
    ensures
        rlp_items(
            rlp_bytes(a) + rlp_bytes(b) + rlp_bytes(c) + rlp_bytes(d) + rlp_bytes(e) + rlp_bytes(f)
                + rlp_bytes(g) + rlp_bytes(h) + rlp_list(Seq::empty()),
        ) matches Some(v) && v == seq![
            RlpItem::Bytes(a),
            RlpItem::Bytes(b),
            RlpItem::Bytes(c),
            RlpItem::Bytes(d),
            RlpItem::Bytes(e),
            RlpItem::Bytes(f),
            RlpItem::Bytes(g),
            RlpItem::Bytes(h),
            RlpItem::List(Seq::empty()),
        ],
{
    let none = Seq::<u8>::empty();
    let s9 = rlp_list(none);
    lemma_right_nested(
        rlp_bytes(a),
        rlp_bytes(b),
        rlp_bytes(c),
        rlp_bytes(d),
        rlp_bytes(e),
        rlp_bytes(f),
        rlp_bytes(g),
        rlp_bytes(h),
        s9,
    );
    let s8 = rlp_bytes(h) + s9;
    let s7 = rlp_bytes(g) + s8;
    let s6 = rlp_bytes(f) + s7;
    let s5 = rlp_bytes(e) + s6;
    let s4 = rlp_bytes(d) + s5;
    let s3 = rlp_bytes(c) + s4;
    let s2 = rlp_bytes(b) + s3;
    let v9 = seq![RlpItem::List(none)];
    assert(rlp_items(s9) == Some(v9)) by {
        reveal(rlp_items);
        law_lists_are_read_back(none, none);
        assert(s9 + none =~= s9);
        assert(rlp_items(none) == Some(Seq::<RlpItem>::empty()));
        assert(v9 + Seq::<RlpItem>::empty() =~= v9);
        reveal_with_fuel(rlp_items, 2);
    }
    let v8 = seq![RlpItem::Bytes(h)] + v9;
    lemma_items_after_bytes(h, s9, v9);
    let v7 = seq![RlpItem::Bytes(g)] + v8;
    lemma_items_after_bytes(g, s8, v8);
    let v6 = seq![RlpItem::Bytes(f)] + v7;
    lemma_items_after_bytes(f, s7, v7);
    let v5 = seq![RlpItem::Bytes(e)] + v6;
    lemma_items_after_bytes(e, s6, v6);
    let v4 = seq![RlpItem::Bytes(d)] + v5;
    lemma_items_after_bytes(d, s5, v5);
    let v3 = seq![RlpItem::Bytes(c)] + v4;
    lemma_items_after_bytes(c, s4, v4);
    let v2 = seq![RlpItem::Bytes(b)] + v3;
    lemma_items_after_bytes(b, s3, v3);
    lemma_items_after_bytes(a, s2, v2);
    assert(seq![RlpItem::Bytes(a)] + v2 =~= seq![
        RlpItem::Bytes(a),
        RlpItem::Bytes(b),
        RlpItem::Bytes(c),
        RlpItem::Bytes(d),
        RlpItem::Bytes(e),
        RlpItem::Bytes(f),
        RlpItem::Bytes(g),
        RlpItem::Bytes(h),
        RlpItem::List(none),
    ]);
}

/// Nine encoded items behind the type byte are read back as a transaction.
pub proof fn lemma_transaction_is_read_back(t: Transaction, items: Seq<u8>)
    requires
        t.to.len() <= u64::MAX,
        t.data.len() <= u64::MAX,
        items.len() <= u64::MAX,
        uint_bytes(t.chain_id).len() <= 16,
        uint_bytes(t.nonce).len() <= 16,
        uint_bytes(t.max_priority_fee).len() <= 16,
        uint_bytes(t.max_fee).len() <= 16,
        uint_bytes(t.gas_limit).len() <= 16,
        uint_bytes(t.value).len() <= 16,
        t.access_list == Seq::<u8>::empty(),
        items == rlp_bytes(uint_bytes(t.chain_id)) + rlp_bytes(uint_bytes(t.nonce)) + rlp_bytes(
            uint_bytes(t.max_priority_fee),
        ) + rlp_bytes(uint_bytes(t.max_fee)) + rlp_bytes(uint_bytes(t.gas_limit)) + rlp_bytes(t.to)
            + rlp_bytes(uint_bytes(t.value)) + rlp_bytes(t.data) + rlp_list(Seq::empty()),
    ensures
        read_transaction(seq![2u8] + rlp_list(items)) == Some(t),
{
    let none = Seq::<u8>::empty();
    law_uint_bytes_are_minimal(t.chain_id);
    law_uint_bytes_are_minimal(t.nonce);
    law_uint_bytes_are_minimal(t.max_priority_fee);
    law_uint_bytes_are_minimal(t.max_fee);
    law_uint_bytes_are_minimal(t.gas_limit);
    law_uint_bytes_are_minimal(t.value);
    lemma_nine_items(
        uint_bytes(t.chain_id),
        uint_bytes(t.nonce),
        uint_bytes(t.max_priority_fee),
        uint_bytes(t.max_fee),
        uint_bytes(t.gas_limit),
        t.to,
        uint_bytes(t.value),
        t.data,
    );
    let tx = seq![2u8] + rlp_list(items);
    law_lists_are_read_back(items, none);
    assert(tx.skip(1) =~= rlp_list(items) + none);
}

} // verus!
