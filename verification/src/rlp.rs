//! The recursive length prefix encoding of Ethereum.
use vstd::prelude::*;

verus! {

/// A number as big-endian bytes without leading zeros; zero is no bytes.
pub open spec fn uint_bytes(n: nat) -> Seq<u8>
    decreases n,
{
    if n == 0 {
        Seq::empty()
    } else {
        uint_bytes(n / 256).push((n % 256) as u8)
    }
}

/// The number that big-endian bytes stand for.
pub open spec fn be_value(b: Seq<u8>) -> nat
    decreases b.len(),
{
    if b.len() == 0 {
        0
    } else {
        be_value(b.drop_last()) * 256 + b.last() as nat
    }
}

/// A power of 256.
spec fn pow256(k: nat) -> nat
    decreases k,
{
    if k == 0 {
        1
    } else {
        256 * pow256((k - 1) as nat)
    }
}

/// A number below a power of 256 takes at most as many bytes.
proof fn lemma_uint_len(n: nat, k: nat)
    requires
        n < pow256(k),
    ensures
        uint_bytes(n).len() <= k,
    decreases k,
{
    if n > 0 {
        assert(n / 256 < pow256((k - 1) as nat)) by (nonlinear_arith)
            requires
                n < 256 * pow256((k - 1) as nat),
        ;
        lemma_uint_len(n / 256, (k - 1) as nat);
    }
}

/// A number of 64 bits takes at most eight bytes.
pub proof fn lemma_u64_len(n: u64)
    ensures
        uint_bytes(n as nat).len() <= 8,
{
    assert(pow256(8) == 0x1_0000_0000_0000_0000) by {
        reveal_with_fuel(pow256, 9);
    }
    lemma_uint_len(n as nat, 8);
}

/// A number of 128 bits takes at most sixteen bytes.
pub proof fn lemma_u128_len(n: u128)
    ensures
        uint_bytes(n as nat).len() <= 16,
{
    assert(pow256(16) == 0x1_0000_0000_0000_0000_0000_0000_0000_0000) by {
        reveal_with_fuel(pow256, 17);
    }
    lemma_uint_len(n as nat, 16);
}

/// The bytes of a number stand for it, and none of them is a leading zero.
pub proof fn law_uint_bytes_are_minimal(n: nat)
    ensures
        be_value(uint_bytes(n)) == n,
        uint_bytes(n).len() > 0 ==> uint_bytes(n)[0] != 0,
    decreases n,
{
    if n > 0 {
        law_uint_bytes_are_minimal(n / 256);
        let head = uint_bytes(n / 256);
        assert(uint_bytes(n).drop_last() =~= head);
        assert(n == (n / 256) * 256 + n % 256) by (nonlinear_arith);
        if n / 256 > 0 {
            assert(uint_bytes(n)[0] == head[0]);
        }
    }
}

/// A number as big-endian bytes without leading zeros; zero is no bytes.
pub fn rlp_uint(value: u64) -> (r: Vec<u8>)
    ensures
        r@ == uint_bytes(value as nat),
    decreases value,
{
    if value == 0 {
        return Vec::new();
    }
    let mut out = rlp_uint(value / 256);
    out.push((value % 256) as u8);
    out
}

/// A number of up to 128 bits as big-endian bytes without leading zeros.
fn wide_uint(value: u128) -> (r: Vec<u8>)
    ensures
        r@ == uint_bytes(value as nat),
    decreases value,
{
    if value == 0 {
        return Vec::new();
    }
    let mut out = wide_uint(value / 256);
    out.push((value % 256) as u8);
    out
}

/// The head of an item with `len` bytes: one byte up to 55, otherwise the
/// length of the length and the length.
pub open spec fn head(base: u8, len: nat) -> Seq<u8> {
    if len <= 55 {
        seq![(base + len) as u8]
    } else {
        seq![(base + 55 + uint_bytes(len).len()) as u8] + uint_bytes(len)
    }
}

/// The encoding of a text of bytes: a single byte below 128 is its own.
pub open spec fn rlp_bytes(b: Seq<u8>) -> Seq<u8> {
    if b.len() == 1 && b[0] < 0x80 {
        b
    } else {
        head(0x80, b.len()) + b
    }
}

/// The encoding of a list whose items are encoded one after the other.
pub open spec fn rlp_list(items: Seq<u8>) -> Seq<u8> {
    head(0xc0, items.len()) + items
}

fn encode_head(base: u8, len: usize) -> (r: Vec<u8>)
    requires
        base <= 0xc0,
    ensures
        r@ == head(base, len as nat),
{
    let mut out: Vec<u8> = Vec::new();
    if len <= 55 {
        out.push(base + len as u8);
        assert(out@ =~= head(base, len as nat));
        return out;
    }
    let size = rlp_uint(len as u64);
    proof {
        lemma_u64_len(len as u64);
    }
    out.push(base + 55 + size.len() as u8);
    append(&mut out, size.as_slice());
    assert(out@ =~= head(base, len as nat));
    out
}

/// Appends bytes.
pub fn append(out: &mut Vec<u8>, b: &[u8])
    ensures
        final(out)@ == old(out)@ + b@,
{
    let ghost start = out@;
    let mut i: usize = 0;
    assert(start + b@.take(0) =~= start);
    while i < b.len()
        invariant
            i <= b@.len(),
            out@ == start + b@.take(i as int),
        decreases b@.len() - i,
    {
        out.push(b[i]);
        assert(start + b@.take(i + 1) =~= (start + b@.take(i as int)).push(b@[i as int]));
        i = i + 1;
    }
    assert(b@.take(i as int) =~= b@);
}

/// The encoding of a text of bytes.
pub fn encode_bytes(b: &[u8]) -> (r: Vec<u8>)
    ensures
        r@ == rlp_bytes(b@),
{
    if b.len() == 1 && b[0] < 0x80 {
        let mut out: Vec<u8> = Vec::new();
        append(&mut out, b);
        assert(out@ =~= b@);
        return out;
    }
    let mut out = encode_head(0x80, b.len());
    append(&mut out, b);
    out
}

/// The encoding of a list.
pub fn encode_list(items: &[u8]) -> (r: Vec<u8>)
    ensures
        r@ == rlp_list(items@),
{
    let mut out = encode_head(0xc0, items.len());
    append(&mut out, items);
    out
}

/// The encoding of a number.
pub fn rlp_u128(v: u128) -> (r: Vec<u8>)
    ensures
        r@ == rlp_bytes(uint_bytes(v as nat)),
{
    encode_bytes(wide_uint(v).as_slice())
}

// ---------------------------------------------------------------------------
// Reading
// ---------------------------------------------------------------------------

/// An item as it is read: bytes, or a list with its encoded items.
pub enum RlpItem {
    Bytes(Seq<u8>),
    List(Seq<u8>),
}

/// Where the content of the first item of `s` lies: whether the item is a list,
/// and where the content starts and ends. The first byte says how to find out.
pub open spec fn rlp_span(s: Seq<u8>) -> Option<(bool, int, int)> {
    if s.len() == 0 {
        None
    } else {
        let b = s[0] as int;
        if b < 128 {
            Some((false, 0, 1))
        } else if b < 184 {
            Some((false, 1, 1 + (b - 128)))
        } else if b < 192 {
            let n = b - 183;
            if 1 + n <= s.len() {
                Some((false, 1 + n, 1 + n + be_value(s.subrange(1, 1 + n))))
            } else {
                None
            }
        } else if b < 248 {
            Some((true, 1, 1 + (b - 192)))
        } else {
            let n = b - 247;
            if 1 + n <= s.len() {
                Some((true, 1 + n, 1 + n + be_value(s.subrange(1, 1 + n))))
            } else {
                None
            }
        }
    }
}

/// The first item of `s`, and what follows it.
#[verifier::opaque]
pub open spec fn rlp_first(s: Seq<u8>) -> Option<(RlpItem, Seq<u8>)> {
    match rlp_span(s) {
        Some((list, start, end)) => if end <= s.len() {
            let content = s.subrange(start, end);
            Some(
                (
                    if list {
                        RlpItem::List(content)
                    } else {
                        RlpItem::Bytes(content)
                    },
                    s.skip(end),
                ),
            )
        } else {
            None
        },
        None => None,
    }
}

/// The items of `s`, up to its end.
#[verifier::opaque]
pub open spec fn rlp_items(s: Seq<u8>) -> Option<Seq<RlpItem>>
    decreases s.len(),
{
    if s.len() == 0 {
        Some(Seq::empty())
    } else {
        match rlp_first(s) {
            Some((item, rest)) => if rest.len() < s.len() {
                match rlp_items(rest) {
                    Some(items) => Some(seq![item] + items),
                    None => None,
                }
            } else {
                None
            },
            None => None,
        }
    }
}

/// Encoded bytes are read back, whatever follows.
pub proof fn law_bytes_are_read_back(b: Seq<u8>, rest: Seq<u8>)
    requires
        b.len() <= u64::MAX,
    ensures
        rlp_first(rlp_bytes(b) + rest) == Some((RlpItem::Bytes(b), rest)),
{
    reveal(rlp_first);
    let s = rlp_bytes(b) + rest;
    let n = b.len();
    if n == 1 && b[0] < 0x80 {
        assert(s[0] == b[0]);
        assert(s.subrange(0, 1) =~= b);
        assert(s.skip(1) =~= rest);
    } else if n <= 55 {
        assert(s[0] == (0x80 + n) as u8);
        assert(s.subrange(1, 1 + n as int) =~= b);
        assert(s.skip(1 + n as int) =~= rest);
    } else {
        let size = uint_bytes(n);
        lemma_u64_len(n as u64);
        law_uint_bytes_are_minimal(n);
        let k = size.len() as int;
        assert(k > 0);
        assert(s[0] == (0x80 + 55 + k) as u8);
        assert(s.subrange(1, 1 + k) =~= size);
        assert(s.subrange(1 + k, 1 + k + n) =~= b);
        assert(s.skip(1 + k + n) =~= rest);
    }
}

/// An encoded list is read back, whatever follows.
pub proof fn law_lists_are_read_back(items: Seq<u8>, rest: Seq<u8>)
    requires
        items.len() <= u64::MAX,
    ensures
        rlp_first(rlp_list(items) + rest) == Some((RlpItem::List(items), rest)),
{
    reveal(rlp_first);
    let s = rlp_list(items) + rest;
    let n = items.len();
    if n <= 55 {
        assert(s[0] == (0xc0 + n) as u8);
        assert(s.subrange(1, 1 + n as int) =~= items);
        assert(s.skip(1 + n as int) =~= rest);
    } else {
        let size = uint_bytes(n);
        lemma_u64_len(n as u64);
        law_uint_bytes_are_minimal(n);
        let k = size.len() as int;
        assert(k > 0);
        assert(s[0] == (0xc0 + 55 + k) as u8);
        assert(s.subrange(1, 1 + k) =~= size);
        assert(s.subrange(1 + k, 1 + k + n) =~= items);
        assert(s.skip(1 + k + n) =~= rest);
    }
}

/// Bytes in front of items are the first item.
pub proof fn lemma_items_after_bytes(b: Seq<u8>, rest: Seq<u8>, items: Seq<RlpItem>)
    requires
        b.len() <= u64::MAX,
        rlp_items(rest) == Some(items),
    ensures
        rlp_items(rlp_bytes(b) + rest) == Some(seq![RlpItem::Bytes(b)] + items),
{
    reveal(rlp_items);
    law_bytes_are_read_back(b, rest);
    assert(rlp_bytes(b).len() > 0);
}

/// A number with `k` bytes, leading zeros among them.
pub proof fn lemma_leading_zero(b: Seq<u8>)
    ensures
        be_value(seq![0u8] + b) == be_value(b),
    decreases b.len(),
{
    let s = seq![0u8] + b;
    if b.len() == 0 {
        assert(s.drop_last() =~= Seq::<u8>::empty());
        assert(be_value(Seq::<u8>::empty()) == 0);
        assert(be_value(s) == 0);
    } else {
        assert(s.drop_last() =~= seq![0u8] + b.drop_last());
        lemma_leading_zero(b.drop_last());
    }
}

} // verus!
