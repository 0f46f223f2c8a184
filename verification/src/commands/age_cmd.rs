//! `age`: the identity and the recipients of the secret store.
use vstd::prelude::*;

use crate::error::{invalid, invalid_args, CliError, CliErrorView};
use crate::text::{clone_all, dec, decimal, is_among, same, texts};

verus! {

/// An identity that is there is never overwritten.
pub fn init(exists: bool, path: &str) -> (r: Result<(), CliError>)
    ensures
        match r {
            Ok(_) => !exists,
            Err(e) => exists && e@ == CliErrorView::InvalidArgs(
                "age identity already exists at "@ + path@
                    + " (delete it first to reinitialize)"@,
            ),
        },
{
    if exists {
        return Err(
            invalid_args(
                "age identity already exists at ".to_owned().concat(path).concat(
                    " (delete it first to reinitialize)",
                ),
            ),
        );
    }
    Ok(())
}

/// The list with `x` at its end, unless it is on the list.
pub open spec fn with_recipient(list: Seq<Seq<char>>, x: Seq<char>) -> Seq<Seq<char>> {
    if list.contains(x) {
        list
    } else {
        list.push(x)
    }
}

/// The list without `x`.
pub open spec fn without_recipient(list: Seq<Seq<char>>, x: Seq<char>) -> Seq<Seq<char>>
    decreases list.len(),
{
    if list.len() == 0 {
        Seq::empty()
    } else if list.last() == x {
        without_recipient(list.drop_last(), x)
    } else {
        without_recipient(list.drop_last(), x).push(list.last())
    }
}

/// The recipients after one was added. `None` when the list does not change.
pub fn recipient_add(list: &Vec<String>, recipient: &str) -> (r: Option<Vec<String>>)
    ensures
        match r {
            Some(v) => !texts(list@).contains(recipient@) && texts(v@) == with_recipient(
                texts(list@),
                recipient@,
            ),
            None => texts(list@).contains(recipient@),
        },
{
    if is_among(recipient, list) {
        return None;
    }
    let mut out = clone_all(list);
    let ghost before = out@;
    out.push(recipient.to_owned());
    assert(texts(out@) =~= texts(before).push(recipient@));
    Some(out)
}

/// The recipients after one was removed; an error when it is not on the list.
pub fn recipient_remove(list: &Vec<String>, recipient: &str) -> (r: Result<Vec<String>, CliError>)
    ensures
        match r {
            Ok(v) => texts(list@).contains(recipient@) && texts(v@) == without_recipient(
                texts(list@),
                recipient@,
            ),
            Err(e) => !texts(list@).contains(recipient@) && e@ == CliErrorView::InvalidArgs(
                "recipient not found: '"@ + recipient@ + "'"@,
            ),
        },
{
    let mut left: Vec<String> = Vec::new();
    let ghost all = texts(list@);
    let mut i: usize = 0;
    while i < list.len()
        invariant
            i <= list@.len(),
            all == texts(list@),
            texts(left@) == without_recipient(all.take(i as int), recipient@),
            left@.len() <= i,
            left@.len() == i <==> !all.take(i as int).contains(recipient@),
        decreases list@.len() - i,
    {
        let ghost head = all.take(i as int);
        let ghost next = all.take(i + 1);
        assert(next.drop_last() =~= head);
        proof {
            if head.contains(recipient@) {
                let k = choose|k: int| 0 <= k < head.len() && head[k] == recipient@;
                assert(next[k] == recipient@);
            }
            if next.contains(recipient@) {
                let k = choose|k: int| 0 <= k < next.len() && next[k] == recipient@;
                if k < i {
                    assert(head[k] == recipient@);
                }
            }
            assert(next[i as int] == all[i as int]);
        }
        if !same(list[i].as_str(), recipient) {
            let ghost before = left@;
            left.push(list[i].clone());
            assert(texts(left@) =~= texts(before).push(all[i as int]));
        }
        i = i + 1;
    }
    assert(all.take(i as int) =~= all);
    if left.len() == list.len() {
        return Err(
            invalid_args("recipient not found: '".to_owned().concat(recipient).concat("'")),
        );
    }
    Ok(left)
}

/// The lines of the recipients, numbered from one.
pub open spec fn numbered(list: Seq<Seq<char>>) -> Seq<Seq<char>> {
    Seq::new(list.len(), |i: int| decimal(i + 1) + ": "@ + list[i])
}

/// The recipients as they are listed.
pub fn recipient_list(list: &Vec<String>) -> (r: Vec<String>)
    ensures
        list@.len() == 0 ==> texts(r@) == seq!["No recipients found."@],
        list@.len() > 0 ==> texts(r@) == numbered(texts(list@)),
{
    let mut out: Vec<String> = Vec::new();
    if list.len() == 0 {
        out.push("No recipients found.".to_owned());
        assert(texts(out@) =~= seq!["No recipients found."@]);
        return out;
    }
    let ghost want = numbered(texts(list@));
    let mut i: usize = 0;
    while i < list.len()
        invariant
            i <= list@.len(),
            want == numbered(texts(list@)),
            texts(out@) =~= want.take(i as int),
        decreases list@.len() - i,
    {
        let ghost before = out@;
        let line = dec(i as u128 + 1).concat(": ").concat(list[i].as_str());
        out.push(line);
        assert(texts(out@) =~= texts(before).push(want[i as int]));
        i = i + 1;
    }
    assert(want.take(i as int) =~= want);
    out
}

/// Re-encryption needs somebody to encrypt to.
pub fn require_recipients(recipients: &Vec<String>) -> (r: Result<(), CliError>)
    ensures
        match r {
            Ok(_) => recipients@.len() > 0,
            Err(e) => recipients@.len() == 0 && e@ == CliErrorView::InvalidArgs(
                "no recipients found — run `onecipher age init` first"@,
            ),
        },
{
    if recipients.len() == 0 {
        Err(invalid("no recipients found — run `onecipher age init` first"))
    } else {
        Ok(())
    }
}

/// What is said after the store was re-encrypted.
pub fn reencrypted(count: usize, recipients: usize) -> (r: String)
    ensures
        r@ == "Re-encrypted "@ + decimal(count as int) + " secret(s) with "@ + decimal(
            recipients as int,
        ) + " recipient(s)."@,
{
    "Re-encrypted ".to_owned().concat(dec(count as u128).as_str()).concat(
        " secret(s) with ",
    ).concat(dec(recipients as u128).as_str()).concat(" recipient(s).")
}

proof fn lemma_without(list: Seq<Seq<char>>, x: Seq<char>, y: Seq<char>)
    ensures
        without_recipient(list, x).contains(y) <==> list.contains(y) && y != x,
    decreases list.len(),
{
    if list.len() > 0 {
        let front = list.drop_last();
        lemma_without(front, x, y);
        let kept = without_recipient(front, x);
        let all = without_recipient(list, x);
        if front.contains(y) {
            let k = choose|k: int| 0 <= k < front.len() && front[k] == y;
            assert(list[k] == y);
        }
        if list.contains(y) {
            let k = choose|k: int| 0 <= k < list.len() && list[k] == y;
            if k < front.len() {
                assert(front[k] == y);
            }
        }
        if kept.contains(y) {
            let k = choose|k: int| 0 <= k < kept.len() && kept[k] == y;
            assert(all[k] == y);
        }
        if all.contains(y) {
            let k = choose|k: int| 0 <= k < all.len() && all[k] == y;
            if k < kept.len() {
                assert(kept[k] == y);
            } else {
                assert(list[list.len() - 1] == y);
            }
        }
        if list.last() == y && y != x {
            assert(all[all.len() - 1] == y);
        }
    }
}

/// Adding a recipient twice is adding it once.
pub proof fn law_adding_is_idempotent(list: Seq<Seq<char>>, x: Seq<char>)
    ensures
        with_recipient(with_recipient(list, x), x) == with_recipient(list, x),
        with_recipient(list, x).contains(x),
{
    if !list.contains(x) {
        assert(list.push(x)[list.len() as int] == x);
    }
}

/// A removed recipient is gone, and nobody else is.
pub proof fn law_removing_removes_one(list: Seq<Seq<char>>, x: Seq<char>, y: Seq<char>)
    ensures
        !without_recipient(list, x).contains(x),
        y != x ==> (without_recipient(list, x).contains(y) <==> list.contains(y)),
{
    lemma_without(list, x, x);
    lemma_without(list, x, y);
}

/// Adding a recipient keeps all others, in their order, and numbers count from
/// one.
pub proof fn law_adding_keeps_the_others(list: Seq<Seq<char>>, x: Seq<char>, y: Seq<char>, i: int)
    ensures
        with_recipient(list, x).contains(y) <==> list.contains(y) || y == x,
        list.is_prefix_of(with_recipient(list, x)),
        with_recipient(list, x).len() <= list.len() + 1,
        0 <= i < list.len() ==> numbered(list)[i] == decimal(i + 1) + ": "@ + list[i],
{
    let all = with_recipient(list, x);
    if list.contains(y) {
        let k = choose|k: int| 0 <= k < list.len() && list[k] == y;
        assert(all[k] == y);
    }
    if all.contains(y) {
        let k = choose|k: int| 0 <= k < all.len() && all[k] == y;
        if k < list.len() {
            assert(list[k] == y);
        }
    }
    if !list.contains(x) {
        assert(all.last() == x);
    }
}

/// Removing a recipient takes off each of its lines and leaves the others in
/// their order.
pub proof fn law_removing_keeps_the_order(list: Seq<Seq<char>>, x: Seq<char>)
    ensures
        without_recipient(list, x) == list.filter(|y: Seq<char>| y != x),
    decreases list.len(),
{
    reveal(Seq::filter);
    if list.len() > 0 {
        law_removing_keeps_the_order(list.drop_last(), x);
    }
}

} // verus!
