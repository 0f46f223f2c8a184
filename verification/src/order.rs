//! The order of texts by code point, and stable orders of positions.
use vstd::prelude::*;

use crate::text::{chars_of, texts};

verus! {

/// `a` comes before `b`, character by character.
pub open spec fn text_lt(a: Seq<char>, b: Seq<char>) -> bool
    decreases a.len(),
{
    if b.len() == 0 {
        false
    } else if a.len() == 0 {
        true
    } else if a[0] == b[0] {
        text_lt(a.skip(1), b.skip(1))
    } else {
        a[0] < b[0]
    }
}

pub proof fn lemma_text_lt_irreflexive(a: Seq<char>)
    ensures
        !text_lt(a, a),
    decreases a.len(),
{
    if a.len() > 0 {
        lemma_text_lt_irreflexive(a.skip(1));
    }
}

pub proof fn lemma_text_lt_transitive(a: Seq<char>, b: Seq<char>, c: Seq<char>)
    requires
        text_lt(a, b),
        text_lt(b, c),
    ensures
        text_lt(a, c),
    decreases a.len(),
{
    if a.len() > 0 && b.len() > 0 && c.len() > 0 && a[0] == b[0] && b[0] == c[0] {
        lemma_text_lt_transitive(a.skip(1), b.skip(1), c.skip(1));
    }
}

pub proof fn lemma_text_lt_total(a: Seq<char>, b: Seq<char>)
    ensures
        text_lt(a, b) || text_lt(b, a) || a == b,
    decreases a.len(),
{
    if a.len() > 0 && b.len() > 0 && a[0] == b[0] {
        lemma_text_lt_total(a.skip(1), b.skip(1));
        if a.skip(1) == b.skip(1) {
            assert(a =~= seq![a[0]] + a.skip(1));
            assert(b =~= seq![b[0]] + b.skip(1));
        }
    } else if a.len() == 0 && b.len() == 0 {
        assert(a =~= b);
    }
}

/// Whether `a` comes before `b`.
pub fn comes_before(a: &str, b: &str) -> (r: bool)
    ensures
        r == text_lt(a@, b@),
{
    let v = chars_of(a);
    let w = chars_of(b);
    let mut i: usize = 0;
    assert(v@.skip(0) =~= v@);
    assert(w@.skip(0) =~= w@);
    while i < v.len() && i < w.len()
        invariant
            i <= v@.len(),
            i <= w@.len(),
            text_lt(a@, b@) == text_lt(v@.skip(i as int), w@.skip(i as int)),
        decreases v@.len() - i,
    {
        if v[i] != w[i] {
            return v[i] < w[i];
        }
        assert(v@.skip(i as int).skip(1) =~= v@.skip(i + 1));
        assert(w@.skip(i as int).skip(1) =~= w@.skip(i + 1));
        i = i + 1;
    }
    i < w.len()
}

/// Position `i` comes before position `j`: by its key, and among equal keys by
/// the position itself.
pub open spec fn position_lt(keys: Seq<Seq<char>>, i: int, j: int) -> bool {
    text_lt(keys[i], keys[j]) || (keys[i] == keys[j] && i < j)
}

/// `r` lists the positions of `keys` in the order of their keys, and equal
/// keys in the order they stand in. There is exactly one such list.
pub open spec fn is_stable_order(keys: Seq<Seq<char>>, r: Seq<usize>) -> bool {
    &&& r.len() == keys.len()
    &&& forall|i: int| 0 <= i < r.len() ==> #[trigger] r[i] < keys.len()
    &&& forall|i: int, j: int|
        0 <= i < j < r.len() ==> position_lt(keys, #[trigger] r[i] as int, #[trigger] r[j] as int)
}

/// The positions of `keys` in the stable order of their keys.
pub open spec fn stable_order_of(keys: Seq<Seq<char>>) -> Seq<usize> {
    choose|r: Seq<usize>| is_stable_order(keys, r)
}

/// `keys` in order.
pub open spec fn sorted(keys: Seq<Seq<char>>) -> Seq<Seq<char>> {
    Seq::new(keys.len(), |i: int| keys[stable_order_of(keys)[i] as int])
}

/// The positions of `keys` in the stable order of their keys.
pub fn stable_order(keys: &Vec<String>) -> (r: Vec<usize>)
    ensures
        r@ == stable_order_of(texts(keys@)),
        is_stable_order(texts(keys@), r@),
{
    let mut out: Vec<usize> = Vec::new();
    let ghost ks = texts(keys@);
    let mut n: usize = 0;
    while n < keys.len()
        invariant
            n <= keys@.len(),
            ks == texts(keys@),
            out@.len() == n,
            forall|i: int| 0 <= i < out@.len() ==> #[trigger] out@[i] < n,
            forall|i: int, j: int|
                0 <= i < j < out@.len() ==> position_lt(
                    ks,
                    #[trigger] out@[i] as int,
                    #[trigger] out@[j] as int,
                ),
        decreases keys@.len() - n,
    {
        let mut p: usize = out.len();
        while p > 0 && comes_before(keys[n].as_str(), keys[out[p - 1]].as_str())
            invariant
                p <= out@.len(),
                n < keys@.len(),
                ks == texts(keys@),
                forall|i: int| 0 <= i < out@.len() ==> #[trigger] out@[i] < n,
                forall|i: int|
                    p <= i < out@.len() ==> text_lt(ks[n as int], ks[#[trigger] out@[i] as int]),
            decreases p,
        {
            p = p - 1;
        }
        let ghost before = out@;
        out.insert(p, n);
        proof {
            assert forall|i: int, j: int| 0 <= i < j < out@.len() implies position_lt(
                ks,
                #[trigger] out@[i] as int,
                #[trigger] out@[j] as int,
            ) by {
                if j < p {
                    assert(position_lt(ks, before[i] as int, before[j] as int));
                } else if i > p {
                    assert(position_lt(ks, before[i - 1] as int, before[j - 1] as int));
                } else if i == p {
                    assert(before[j - 1] < n);
                } else if j == p {
                    lemma_text_lt_total(ks[before[i] as int], ks[n as int]);
                    assert(!text_lt(ks[n as int], ks[before[p - 1] as int]));
                    if i < p - 1 {
                        assert(position_lt(ks, before[i] as int, before[p - 1] as int));
                        lemma_text_lt_total(ks[before[p - 1] as int], ks[n as int]);
                        if text_lt(ks[n as int], ks[before[i] as int]) {
                            if text_lt(ks[before[i] as int], ks[before[p - 1] as int]) {
                                lemma_text_lt_transitive(
                                    ks[n as int],
                                    ks[before[i] as int],
                                    ks[before[p - 1] as int],
                                );
                            }
                        }
                    }
                    assert(before[i] < n);
                } else {
                    assert(position_lt(ks, before[i] as int, before[j - 1] as int));
                }
            }
        }
        n = n + 1;
    }
    proof {
        law_stable_order_is_unique(ks, out@, stable_order_of(ks));
    }
    out
}

/// Two stable orders of the same keys are the same list.
pub proof fn law_stable_order_is_unique(keys: Seq<Seq<char>>, a: Seq<usize>, b: Seq<usize>)
    requires
        is_stable_order(keys, a),
        is_stable_order(keys, b),
    ensures
        a == b,
{
    lemma_ranks_are_fixed(keys, a, b, keys.len() as int);
    assert(a =~= b);
}

proof fn lemma_position_lt_asymmetric(keys: Seq<Seq<char>>, i: int, j: int)
    requires
        position_lt(keys, i, j),
    ensures
        !position_lt(keys, j, i),
{
    if text_lt(keys[i], keys[j]) && text_lt(keys[j], keys[i]) {
        lemma_text_lt_transitive(keys[i], keys[j], keys[i]);
    }
    lemma_text_lt_irreflexive(keys[i]);
}

/// Every position is listed.
pub proof fn lemma_every_position_listed(keys: Seq<Seq<char>>, r: Seq<usize>, x: int)
    requires
        is_stable_order(keys, r),
        0 <= x < keys.len(),
    ensures
        exists|i: int| 0 <= i < r.len() && r[i] == x,
{
    let listed = r.map_values(|u: usize| u as int);
    assert(listed.no_duplicates()) by {
        assert forall|i: int, j: int|
            0 <= i < listed.len() && 0 <= j < listed.len() && i != j implies listed[i]
            != listed[j] by {
            if i < j {
                assert(position_lt(keys, r[i] as int, r[j] as int));
                lemma_position_lt_asymmetric(keys, r[i] as int, r[j] as int);
            } else {
                assert(position_lt(keys, r[j] as int, r[i] as int));
                lemma_position_lt_asymmetric(keys, r[j] as int, r[i] as int);
            }
        }
    }
    listed.unique_seq_to_set();
    let all = vstd::set_lib::set_int_range(0, keys.len() as int);
    vstd::set_lib::lemma_int_range(0, keys.len() as int);
    assert(listed.to_set().subset_of(all)) by {
        assert forall|y: int| listed.to_set().contains(y) implies all.contains(y) by {
            let i = choose|i: int| 0 <= i < listed.len() && listed[i] == y;
            assert(r[i] < keys.len());
        }
    }
    vstd::set_lib::lemma_subset_equality(listed.to_set(), all);
    assert(all.contains(x));
    assert(listed.to_set().contains(x));
    let i = choose|i: int| 0 <= i < listed.len() && listed[i] == x;
    assert(r[i] == x);
}

proof fn lemma_ranks_are_fixed(keys: Seq<Seq<char>>, a: Seq<usize>, b: Seq<usize>, n: int)
    requires
        is_stable_order(keys, a),
        is_stable_order(keys, b),
        0 <= n <= keys.len(),
    ensures
        forall|i: int| 0 <= i < n ==> a[i] == b[i],
    decreases n,
{
    if n > 0 {
        lemma_ranks_are_fixed(keys, a, b, n - 1);
        let k = n - 1;
        if a[k] != b[k] {
            lemma_every_position_listed(keys, b, a[k] as int);
            let j = choose|j: int| 0 <= j < b.len() && b[j] == a[k];
            lemma_every_position_listed(keys, a, b[k] as int);
            let i = choose|i: int| 0 <= i < a.len() && a[i] == b[k];
            if j < k {
                assert(a[j] == b[j]);
                assert(position_lt(keys, a[j] as int, a[k] as int));
                lemma_position_lt_asymmetric(keys, a[j] as int, a[k] as int);
            }
            if i < k {
                assert(a[i] == b[i]);
                assert(position_lt(keys, b[i] as int, b[k] as int));
                lemma_position_lt_asymmetric(keys, b[i] as int, b[k] as int);
            }
            assert(position_lt(keys, b[k] as int, b[j] as int));
            assert(position_lt(keys, a[k] as int, a[i] as int));
            lemma_position_lt_asymmetric(keys, b[k] as int, b[j] as int);
        }
    }
}

// ---------------------------------------------------------------------------
// Rankings
// ---------------------------------------------------------------------------

/// Position `i` ranks before position `j`: by the higher score, and among
/// equal scores by the position itself.
pub open spec fn ranks_before(scores: Seq<Option<u128>>, i: int, j: int) -> bool {
    &&& scores[i] matches Some(a)
    &&& scores[j] matches Some(b)
    &&& a > b || (a == b && i < j)
}

/// `r` lists the positions that have a score, each once, the highest score
/// first and equal scores in the order they stand in.
pub open spec fn is_ranking(scores: Seq<Option<u128>>, r: Seq<usize>) -> bool {
    &&& forall|i: int|
        0 <= i < r.len() ==> #[trigger] r[i] < scores.len() && scores[r[i] as int] is Some
    &&& forall|x: int|
        0 <= x < scores.len() && (#[trigger] scores[x]) is Some ==> r.contains(x as usize)
    &&& forall|i: int, j: int|
        0 <= i < j < r.len() ==> ranks_before(
            scores,
            #[trigger] r[i] as int,
            #[trigger] r[j] as int,
        )
}

/// The ranking of scores.
pub open spec fn ranking_of(scores: Seq<Option<u128>>) -> Seq<usize> {
    choose|r: Seq<usize>| is_ranking(scores, r)
}

/// The ranking of scores.
pub fn ranking(scores: &Vec<Option<u128>>) -> (r: Vec<usize>)
    ensures
        r@ == ranking_of(scores@),
        is_ranking(scores@, r@),
{
    let mut out: Vec<usize> = Vec::new();
    let mut n: usize = 0;
    while n < scores.len()
        invariant
            n <= scores@.len(),
            forall|i: int|
                0 <= i < out@.len() ==> #[trigger] out@[i] < n && scores@[out@[i] as int] is Some,
            forall|x: int|
                0 <= x < n && (#[trigger] scores@[x]) is Some ==> out@.contains(x as usize),
            forall|i: int, j: int|
                0 <= i < j < out@.len() ==> ranks_before(
                    scores@,
                    #[trigger] out@[i] as int,
                    #[trigger] out@[j] as int,
                ),
        decreases scores@.len() - n,
    {
        if let Some(score) = scores[n] {
            let mut p: usize = out.len();
            while p > 0 && beats(score, scores[out[p - 1]])
                invariant
                    p <= out@.len(),
                    n < scores@.len(),
                    scores@[n as int] == Some(score),
                    forall|i: int|
                        0 <= i < out@.len() ==> #[trigger] out@[i] < n
                            && scores@[out@[i] as int] is Some,
                    forall|i: int|
                        p <= i < out@.len() ==> score > scores@[#[trigger] out@[i] as int]->0,
                decreases p,
            {
                p = p - 1;
            }
            let ghost before = out@;
            out.insert(p, n);
            proof {
                assert(out@[p as int] == n);
                assert forall|x: int| 0 <= x < n + 1 && (#[trigger] scores@[x])
                    is Some implies out@.contains(x as usize) by {
                    if x < n {
                        let i = choose|i: int| 0 <= i < before.len() && before[i] == x as usize;
                        if i < p {
                            assert(out@[i] == x as usize);
                        } else {
                            assert(out@[i + 1] == x as usize);
                        }
                    }
                }
                assert forall|i: int, j: int| 0 <= i < j < out@.len() implies ranks_before(
                    scores@,
                    #[trigger] out@[i] as int,
                    #[trigger] out@[j] as int,
                ) by {
                    if j < p {
                        assert(ranks_before(scores@, before[i] as int, before[j] as int));
                    } else if i > p {
                        assert(ranks_before(scores@, before[i - 1] as int, before[j - 1] as int));
                    } else if i == p {
                        assert(before[j - 1] < n);
                    } else if j == p {
                        assert(before[i] < n);
                        assert(before[p - 1] < n);
                        if i < p - 1 {
                            assert(ranks_before(scores@, before[i] as int, before[p - 1] as int));
                        }
                    } else {
                        assert(ranks_before(scores@, before[i] as int, before[j - 1] as int));
                    }
                }
            }
        }
        n = n + 1;
    }
    proof {
        assert(is_ranking(scores@, out@));
        law_ranking_is_unique(scores@, out@, ranking_of(scores@));
    }
    out
}

fn beats(score: u128, other: Option<u128>) -> (r: bool)
    requires
        other is Some,
    ensures
        r == (score > other->0),
{
    match other {
        Some(o) => score > o,
        None => false,
    }
}

/// Two rankings of the same scores are the same list.
pub proof fn law_ranking_is_unique(scores: Seq<Option<u128>>, a: Seq<usize>, b: Seq<usize>)
    requires
        is_ranking(scores, a),
        is_ranking(scores, b),
    ensures
        a == b,
    decreases a.len() + b.len(),
{
    let n = if a.len() < b.len() {
        a.len() as int
    } else {
        b.len() as int
    };
    lemma_rankings_agree(scores, a, b, n);
    if a.len() < b.len() {
        let x = b[n];
        assert(scores[x as int] is Some);
        let i = choose|i: int| 0 <= i < a.len() && a[i] == x;
        assert(a[i] == b[i]);
        assert(ranks_before(scores, b[i] as int, b[n] as int));
    }
    if b.len() < a.len() {
        let x = a[n];
        assert(scores[x as int] is Some);
        let i = choose|i: int| 0 <= i < b.len() && b[i] == x;
        assert(a[i] == b[i]);
        assert(ranks_before(scores, a[i] as int, a[n] as int));
    }
    assert(a =~= b);
}

proof fn lemma_rankings_agree(scores: Seq<Option<u128>>, a: Seq<usize>, b: Seq<usize>, n: int)
    requires
        is_ranking(scores, a),
        is_ranking(scores, b),
        0 <= n <= a.len(),
        n <= b.len(),
    ensures
        forall|i: int| 0 <= i < n ==> a[i] == b[i],
    decreases n,
{
    if n > 0 {
        lemma_rankings_agree(scores, a, b, n - 1);
        let k = n - 1;
        if a[k] != b[k] {
            assert(scores[a[k] as int] is Some);
            assert(scores[b[k] as int] is Some);
            let j = choose|j: int| 0 <= j < b.len() && b[j] == a[k];
            let i = choose|i: int| 0 <= i < a.len() && a[i] == b[k];
            if j < k {
                assert(a[j] == b[j]);
                assert(ranks_before(scores, a[j] as int, a[k] as int));
            }
            if i < k {
                assert(a[i] == b[i]);
                assert(ranks_before(scores, b[i] as int, b[k] as int));
            }
            assert(ranks_before(scores, b[k] as int, b[j] as int));
            assert(ranks_before(scores, a[k] as int, a[i] as int));
        }
    }
}

/// In a ranking a higher score comes first, and of equal scores the earlier
/// one.
pub proof fn law_rankings_descend(scores: Seq<Option<u128>>, r: Seq<usize>, i: int, j: int)
    requires
        is_ranking(scores, r),
        0 <= i < j < r.len(),
    ensures
        scores[r[i] as int]->0 >= scores[r[j] as int]->0,
        scores[r[i] as int] == scores[r[j] as int] ==> r[i] < r[j],
{
    assert(ranks_before(scores, r[i] as int, r[j] as int));
}

/// In a stable order the texts ascend by their characters, a text before what
/// extends it, and equal texts keep their order.
pub proof fn law_orders_ascend(keys: Seq<Seq<char>>, r: Seq<usize>, i: int, j: int, a: Seq<char>,
    b: Seq<char>, c: char, d: char, p: Seq<char>)
    requires
        is_stable_order(keys, r),
        0 <= i < j < r.len(),
    ensures
        !text_lt(keys[r[j] as int], keys[r[i] as int]),
        keys[r[i] as int] == keys[r[j] as int] ==> r[i] < r[j],
        c < d ==> text_lt(p + seq![c] + a, p + seq![d] + b),
        a.len() > 0 ==> text_lt(p, p + a),
    decreases p.len(),
{
    assert(position_lt(keys, r[i] as int, r[j] as int));
    let x = keys[r[i] as int];
    let y = keys[r[j] as int];
    if text_lt(y, x) {
        lemma_text_lt_irreflexive(x);
        if text_lt(x, y) {
            lemma_text_lt_transitive(x, y, x);
        }
    }
    let s = p + seq![c] + a;
    let t = p + seq![d] + b;
    let u = p + a;
    if p.len() > 0 {
        law_orders_ascend(keys, r, i, j, a, b, c, d, p.skip(1));
        assert(s.skip(1) =~= p.skip(1) + seq![c] + a);
        assert(t.skip(1) =~= p.skip(1) + seq![d] + b);
        assert(u.skip(1) =~= p.skip(1) + a);
    } else {
        assert(s[0] == c && t[0] == d);
    }
}

/// A list of all positions in which the texts ascend, and equal texts keep their
/// order, is the stable order; one that misses a position or is not ascending is not.
pub proof fn law_ascending_positions_are_the_order(keys: Seq<Seq<char>>, r: Seq<usize>)
    ensures
        is_stable_order(keys, r) <==> r.len() == keys.len() && (forall|i: int|
            0 <= i < r.len() ==> #[trigger] r[i] < keys.len()) && (forall|i: int, j: int|
            0 <= i < j < r.len() ==> text_lt(
                keys[#[trigger] r[i] as int],
                keys[#[trigger] r[j] as int],
            ) || keys[r[i] as int] == keys[r[j] as int] && r[i] < r[j]),
{
}

/// A list of all positions with a score in which the scores descend, and equal scores
/// keep their order, is the ranking, and nothing else is.
pub proof fn law_descending_scores_are_the_ranking(scores: Seq<Option<u128>>, r: Seq<usize>)
    requires
        forall|i: int|
            0 <= i < r.len() ==> #[trigger] r[i] < scores.len() && scores[r[i] as int] is Some,
    ensures
        is_ranking(scores, r) <==> (forall|x: int|
            0 <= x < scores.len() && (#[trigger] scores[x]) is Some ==> r.contains(x as usize)) && (
        forall|i: int, j: int|
            0 <= i < j < r.len()
                ==> scores[#[trigger] r[i] as int]->0 > scores[#[trigger] r[j] as int]->0
                || scores[r[i] as int]->0 == scores[r[j] as int]->0 && r[i] < r[j]),
{
    if is_ranking(scores, r) {
        assert forall|i: int, j: int| 0 <= i < j < r.len() implies scores[#[trigger] r[i] as int]->0
            > scores[#[trigger] r[j] as int]->0 || scores[r[i] as int]->0 == scores[r[j] as int]->0
            && r[i] < r[j] by {
            assert(ranks_before(scores, r[i] as int, r[j] as int));
        }
    }
}

} // verus!
