//! Facts about sequences.
use vstd::prelude::*;

verus! {

/// A filtered sequence holds exactly the members that satisfy the predicate.
pub proof fn lemma_filter_member<A>(s: Seq<A>, p: spec_fn(A) -> bool, x: A)
    ensures
        s.filter(p).contains(x) <==> s.contains(x) && p(x),
    decreases s.len(),
{
    reveal(Seq::filter);
    if s.len() > 0 {
        let front = s.drop_last();
        lemma_filter_member(front, p, x);
        let f = s.filter(p);
        if f.contains(x) {
            let k = choose|k: int| 0 <= k < f.len() && f[k] == x;
            if k < front.filter(p).len() {
                assert(front.filter(p)[k] == x);
                let i = choose|i: int| 0 <= i < front.len() && front[i] == x;
                assert(s[i] == x);
            } else {
                assert(s[s.len() - 1] == x);
            }
        }
        if s.contains(x) && p(x) {
            let i = choose|i: int| 0 <= i < s.len() && s[i] == x;
            if i < front.len() {
                assert(front[i] == x);
                let k = choose|k: int| 0 <= k < front.filter(p).len() && front.filter(p)[k] == x;
                assert(f[k] == x);
            } else {
                assert(f[f.len() - 1] == x);
            }
        }
    }
}

/// The set of a sequence with one more member.
pub proof fn lemma_push_to_set<A>(s: Seq<A>, x: A)
    ensures
        s.push(x).to_set() == s.to_set().insert(x),
{
    let next = s.push(x);
    assert forall|y: A| next.to_set().contains(y) == s.to_set().insert(x).contains(y) by {
        if s.contains(y) {
            let k = choose|k: int| 0 <= k < s.len() && s[k] == y;
            assert(next[k] == y);
        }
        if y == x {
            assert(next[s.len() as int] == y);
        }
        if next.contains(y) {
            let k = choose|k: int| 0 <= k < next.len() && next[k] == y;
            if k < s.len() {
                assert(s[k] == y);
            }
        }
    }
    assert(next.to_set() =~= s.to_set().insert(x));
}

} // verus!
