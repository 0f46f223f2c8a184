//! `env`: a command that runs with secrets in its environment.
//!
//! The variables come from direct pairs (`-e KEY=VAL`), from prompts
//! (`-p KEY`) and from secrets of the store, by name or by directory. No two
//! variables may have the same name.
use vstd::prelude::*;

use crate::error::{invalid, invalid_args, CliError, CliErrorView};
use crate::order::{
    is_stable_order, lemma_text_lt_irreflexive, lemma_text_lt_transitive, position_lt,
    stable_order, text_lt,
};
use crate::text::{
    ascii_upper, chars_of, cut_once, law_cutting_gives_both_sides, law_sides_are_cut_apart,
    law_trimmed_ends_are_of_the_set, occurs_at, replace, replace_from, replaced, same, split_once,
    starts_with, strip_prefix, texts, to_ascii_upper, trim_end_of, trimmed_newlines, without_prefix,
};

verus! {

/// A variable for the command.
#[derive(Debug)]
pub struct EnvPair {
    pub key: String,
    pub value: String,
}

/// An [`EnvPair`] with its texts as sequences of characters.
pub struct PairView {
    pub key: Seq<char>,
    pub value: Seq<char>,
}

impl View for EnvPair {
    type V = PairView;

    open spec fn view(&self) -> PairView {
        PairView { key: self.key@, value: self.value@ }
    }
}

/// The views of pairs.
pub open spec fn pairs_view(v: Seq<EnvPair>) -> Seq<PairView> {
    Seq::new(v.len(), |i: int| v[i]@)
}

/// The keys of pairs.
pub open spec fn pair_keys(v: Seq<PairView>) -> Seq<Seq<char>> {
    Seq::new(v.len(), |i: int| v[i].key)
}

/// The variable name for a secret: `/` becomes `_`, and letters are upper case
/// unless the case is kept.
pub open spec fn env_key(name: Seq<char>, keep_case: bool) -> Seq<char> {
    let key = replace(name, "/"@, "_"@);
    if keep_case {
        key
    } else {
        ascii_upper(key)
    }
}

/// The variable name for a secret.
pub fn to_env_key(name: &str, keep_case: bool) -> (r: String)
    ensures
        r@ == env_key(name@, keep_case),
{
    proof {
        reveal_strlit("/");
    }
    let key = replaced(name, "/", "_");
    if keep_case {
        key
    } else {
        to_ascii_upper(key.as_str())
    }
}

fn has_nul(s: &str) -> (r: bool)
    ensures
        r == s@.contains('\0'),
{
    let v = chars_of(s);
    let mut i: usize = 0;
    while i < v.len()
        invariant
            v@ == s@,
            i <= v@.len(),
            forall|k: int| 0 <= k < i ==> v@[k] != '\0',
        decreases v@.len() - i,
    {
        if v[i] == '\0' {
            return true;
        }
        i = i + 1;
    }
    false
}

/// The variable of a direct pair: everything before the first `=` is the name,
/// which is not empty; NUL is rejected.
pub open spec fn direct_pair(pair: Seq<char>) -> Result<PairView, CliErrorView> {
    match split_once(pair, '=') {
        None => Err(
            CliErrorView::InvalidArgs("invalid --set (expected KEY=VALUE): '"@ + pair + "'"@),
        ),
        Some((k, v)) => if k.len() == 0 || v.contains('\0') || k.contains('\0') {
            Err(CliErrorView::InvalidArgs("invalid --set pair: '"@ + pair + "'"@))
        } else {
            Ok(PairView { key: k, value: v })
        },
    }
}

/// The variables of the direct pairs from position `i` on, behind `acc`; the
/// first wrong pair is the error.
pub open spec fn direct_pairs(pairs: Seq<Seq<char>>, i: int, acc: Seq<PairView>) -> Result<
    Seq<PairView>,
    CliErrorView,
>
    decreases pairs.len() - i,
{
    if i >= pairs.len() {
        Ok(acc)
    } else {
        match direct_pair(pairs[i]) {
            Ok(p) => direct_pairs(pairs, i + 1, acc.push(p)),
            Err(e) => Err(e),
        }
    }
}

/// The views of pairs or an error.
pub open spec fn pairs_result(r: Result<Vec<EnvPair>, CliError>) -> Result<
    Seq<PairView>,
    CliErrorView,
> {
    match r {
        Ok(v) => Ok(pairs_view(v@)),
        Err(e) => Err(e@),
    }
}

/// The view of a pair or an error.
pub open spec fn pair_result(r: Result<EnvPair, CliError>) -> Result<PairView, CliErrorView> {
    match r {
        Ok(p) => Ok(p@),
        Err(e) => Err(e@),
    }
}

/// The variable of a direct pair.
pub fn parse_pair(pair: &str) -> (r: Result<EnvPair, CliError>)
    ensures
        pair_result(r) == direct_pair(pair@),
{
    match cut_once(pair, '=') {
        None => Err(
            invalid_args(
                "invalid --set (expected KEY=VALUE): '".to_owned().concat(pair).concat("'"),
            ),
        ),
        Some((k, v)) => {
            if k.as_str().is_empty() || has_nul(v.as_str()) || has_nul(k.as_str()) {
                Err(invalid_args("invalid --set pair: '".to_owned().concat(pair).concat("'")))
            } else {
                Ok(EnvPair { key: k, value: v })
            }
        },
    }
}

fn push_pair(out: &mut Vec<EnvPair>, p: EnvPair)
    ensures
        pairs_view(final(out)@) == pairs_view(old(out)@).push(p@),
{
    let ghost before = out@;
    out.push(p);
    assert(pairs_view(out@) =~= pairs_view(before).push(p@));
}

/// The variables of the direct pairs.
pub fn set_pairs(set: &Vec<String>) -> (r: Result<Vec<EnvPair>, CliError>)
    ensures
        pairs_result(r) == direct_pairs(texts(set@), 0, Seq::empty()),
{
    let mut out: Vec<EnvPair> = Vec::new();
    let ghost all = texts(set@);
    assert(pairs_view(out@) =~= Seq::<PairView>::empty());
    let mut i: usize = 0;
    while i < set.len()
        invariant
            i <= set@.len(),
            all == texts(set@),
            direct_pairs(all, 0, Seq::empty()) == direct_pairs(all, i as int, pairs_view(out@)),
        decreases set@.len() - i,
    {
        match parse_pair(set[i].as_str()) {
            Ok(p) => push_pair(&mut out, p),
            Err(e) => return Err(e),
        }
        i = i + 1;
    }
    Ok(out)
}

/// The question for the value of a prompted variable; the name must not be
/// empty nor hold NUL.
pub fn prompt_question(key: &str) -> (r: Result<String, CliError>)
    ensures
        match r {
            Ok(q) => key@.len() > 0 && !key@.contains('\0') && q@ == "Enter value for "@ + key@
                + ": "@,
            Err(e) => (key@.len() == 0 || key@.contains('\0')) && e@ == CliErrorView::InvalidArgs(
                "invalid --prompt key: '"@ + key@ + "'"@,
            ),
        },
{
    if key.is_empty() || has_nul(key) {
        return Err(invalid_args("invalid --prompt key: '".to_owned().concat(key).concat("'")));
    }
    Ok("Enter value for ".to_owned().concat(key).concat(": "))
}

/// The value in a typed line: what stands before the line break, which must
/// not be empty nor hold NUL.
pub open spec fn prompted(key: Seq<char>, line: Seq<char>) -> Result<PairView, CliErrorView> {
    let value = trim_end_of(line, seq!['\n', '\r']);
    if key.len() == 0 || key.contains('\0') {
        Err(CliErrorView::InvalidArgs("invalid --prompt key: '"@ + key + "'"@))
    } else if value.len() == 0 {
        Err(CliErrorView::InvalidArgs("empty value for '"@ + key + "'"@))
    } else if value.contains('\0') {
        Err(CliErrorView::InvalidArgs("binary input rejected"@))
    } else {
        Ok(PairView { key, value })
    }
}

/// The variable that a typed line gives.
pub fn prompt_secret(key: &str, line: &str) -> (r: Result<EnvPair, CliError>)
    ensures
        pair_result(r) == prompted(key@, line@),
{
    match prompt_question(key) {
        Ok(_) => {},
        Err(e) => return Err(e),
    }
    let value = trimmed_newlines(line);
    if value.as_str().is_empty() {
        return Err(invalid_args("empty value for '".to_owned().concat(key).concat("'")));
    }
    if has_nul(value.as_str()) {
        return Err(invalid("binary input rejected"));
    }
    Ok(EnvPair { key: key.to_owned(), value })
}

/// A prompted variable and the line that was typed for it.
#[derive(Debug)]
pub struct Prompted {
    pub key: String,
    pub line: String,
}

/// The variables of the prompts from position `i` on, behind `acc`.
pub open spec fn prompted_pairs(v: Seq<Prompted>, i: int, acc: Seq<PairView>) -> Result<
    Seq<PairView>,
    CliErrorView,
>
    decreases v.len() - i,
{
    if i >= v.len() {
        Ok(acc)
    } else {
        match prompted(v[i].key@, v[i].line@) {
            Ok(p) => prompted_pairs(v, i + 1, acc.push(p)),
            Err(e) => Err(e),
        }
    }
}

/// What came of reading one secret.
#[derive(Debug)]
pub enum Secret {
    Value(String),
    Unreadable(String),
    Undecryptable(String),
}

/// What a name in `--name` stands for: a secret, a name that is no secret
/// (with the listing of the store, and what came of reading each secret in
/// it), or a store that failed.
#[derive(Debug)]
pub enum Lookup {
    Found(Secret),
    NotFound(Result<Vec<Listed>, String>),
    Failed(String),
}

/// A secret in the listing of the store, and what came of reading it where the
/// listing is expanded.
#[derive(Debug)]
pub struct Listed {
    pub name: String,
    pub secret: Secret,
}

/// A `--name` argument and what it stands for.
#[derive(Debug)]
pub struct Named {
    pub name: String,
    pub lookup: Lookup,
}

/// The variable of a secret that was read under `name`.
pub open spec fn secret_pair(name: Seq<char>, key: Seq<char>, s: Secret) -> Result<
    PairView,
    CliErrorView,
> {
    match s {
        Secret::Value(v) => Ok(PairView { key, value: v@ }),
        Secret::Unreadable(e) => Err(
            CliErrorView::InvalidArgs("failed to read '"@ + name + "': "@ + e@),
        ),
        Secret::Undecryptable(e) => Err(
            CliErrorView::InvalidArgs("decryption failed for '"@ + name + "': "@ + e@),
        ),
    }
}

fn pair_of_secret(name: &str, key: String, s: &Secret) -> (r: Result<EnvPair, CliError>)
    ensures
        pair_result(r) == secret_pair(name@, key@, *s),
{
    match s {
        Secret::Value(v) => Ok(EnvPair { key, value: v.clone() }),
        Secret::Unreadable(e) => Err(
            invalid_args(
                "failed to read '".to_owned().concat(name).concat("': ").concat(e.as_str()),
            ),
        ),
        Secret::Undecryptable(e) => Err(
            invalid_args(
                "decryption failed for '".to_owned().concat(name).concat("': ").concat(
                    e.as_str(),
                ),
            ),
        ),
    }
}

/// The variables of the secrets below a directory, from position `i` of the
/// listing on: the part of the name behind the directory is the key.
pub open spec fn directory_pairs(
    prefix: Seq<char>,
    list: Seq<Listed>,
    keep_case: bool,
    i: int,
    acc: Seq<PairView>,
) -> Result<Seq<PairView>, CliErrorView>
    decreases list.len() - i,
{
    if i >= list.len() {
        Ok(acc)
    } else {
        match strip_prefix(list[i].name@, prefix) {
            None => directory_pairs(prefix, list, keep_case, i + 1, acc),
            Some(rest) => match secret_pair(
                list[i].name@,
                env_key(rest, keep_case),
                list[i].secret,
            ) {
                Ok(p) => directory_pairs(prefix, list, keep_case, i + 1, acc.push(p)),
                Err(e) => Err(e),
            },
        }
    }
}

/// Some secret of the listing is below the directory.
pub open spec fn has_below(prefix: Seq<char>, list: Seq<Listed>) -> bool {
    exists|i: int| 0 <= i < list.len() && prefix.is_prefix_of((#[trigger] list[i]).name@)
}

/// The variables of one `--name`, behind `acc`.
pub open spec fn named_pairs(n: Named, keep_case: bool, acc: Seq<PairView>) -> Result<
    Seq<PairView>,
    CliErrorView,
> {
    match n.lookup {
        Lookup::Found(s) => match secret_pair(n.name@, env_key(n.name@, keep_case), s) {
            Ok(p) => Ok(acc.push(p)),
            Err(e) => Err(e),
        },
        Lookup::NotFound(Err(e)) => Err(
            CliErrorView::InvalidArgs("failed to list secrets: "@ + e@),
        ),
        Lookup::NotFound(Ok(list)) => if has_below(n.name@ + "/"@, list@) {
            directory_pairs(n.name@ + "/"@, list@, keep_case, 0, acc)
        } else {
            Err(
                CliErrorView::InvalidArgs(
                    "no secret or directory found matching '"@ + n.name@ + "'"@,
                ),
            )
        },
        Lookup::Failed(e) => Err(
            CliErrorView::InvalidArgs("failed to read secret '"@ + n.name@ + "': "@ + e@),
        ),
    }
}

/// The variables of the names from position `i` on, behind `acc`.
pub open spec fn all_named_pairs(v: Seq<Named>, keep_case: bool, i: int, acc: Seq<PairView>) -> Result<
    Seq<PairView>,
    CliErrorView,
>
    decreases v.len() - i,
{
    if i >= v.len() {
        Ok(acc)
    } else {
        match named_pairs(v[i], keep_case, acc) {
            Ok(next) => all_named_pairs(v, keep_case, i + 1, next),
            Err(e) => Err(e),
        }
    }
}

fn is_below(prefix: &str, list: &Vec<Listed>) -> (r: bool)
    ensures
        r == has_below(prefix@, list@),
{
    let mut i: usize = 0;
    while i < list.len()
        invariant
            i <= list@.len(),
            forall|k: int| 0 <= k < i ==> !prefix@.is_prefix_of((#[trigger] list@[k]).name@),
        decreases list@.len() - i,
    {
        if starts_with(list[i].name.as_str(), prefix) {
            return true;
        }
        i = i + 1;
    }
    false
}

/// Adds the variables of one `--name`.
pub fn add_named(out: &mut Vec<EnvPair>, n: &Named, keep_case: bool) -> (r: Result<(), CliError>)
    ensures
        match r {
            Ok(_) => named_pairs(*n, keep_case, pairs_view(old(out)@)) == Ok::<
                Seq<PairView>,
                CliErrorView,
            >(pairs_view(final(out)@)),
            Err(e) => named_pairs(*n, keep_case, pairs_view(old(out)@)) == Err::<
                Seq<PairView>,
                CliErrorView,
            >(e@),
        },
{
    let ghost start = pairs_view(out@);
    match &n.lookup {
        Lookup::Found(s) => {
            let key = to_env_key(n.name.as_str(), keep_case);
            match pair_of_secret(n.name.as_str(), key, s) {
                Ok(p) => {
                    push_pair(out, p);
                    Ok(())
                },
                Err(e) => Err(e),
            }
        },
        Lookup::NotFound(Err(e)) => Err(
            invalid_args("failed to list secrets: ".to_owned().concat(e.as_str())),
        ),
        Lookup::NotFound(Ok(list)) => {
            let prefix = n.name.clone().concat("/");
            if !is_below(prefix.as_str(), list) {
                return Err(
                    invalid_args(
                        "no secret or directory found matching '".to_owned().concat(
                            n.name.as_str(),
                        ).concat("'"),
                    ),
                );
            }
            let mut i: usize = 0;
            while i < list.len()
                invariant
                    i <= list@.len(),
                    prefix@ == n.name@ + "/"@,
                    directory_pairs(prefix@, list@, keep_case, 0, start) == directory_pairs(
                        prefix@,
                        list@,
                        keep_case,
                        i as int,
                        pairs_view(out@),
                    ),
                    has_below(prefix@, list@),
                    n.lookup == Lookup::NotFound(Ok(*list)),
                    start == pairs_view(old(out)@),
                decreases list@.len() - i,
            {
                match without_prefix(list[i].name.as_str(), prefix.as_str()) {
                    None => {},
                    Some(rest) => {
                        let key = to_env_key(rest.as_str(), keep_case);
                        match pair_of_secret(list[i].name.as_str(), key, &list[i].secret) {
                            Ok(p) => push_pair(out, p),
                            Err(e) => return Err(e),
                        }
                    },
                }
                i = i + 1;
            }
            Ok(())
        },
        Lookup::Failed(e) => Err(
            invalid_args(
                "failed to read secret '".to_owned().concat(n.name.as_str()).concat("': ").concat(
                    e.as_str(),
                ),
            ),
        ),
    }
}

/// `k` occurs at least twice, and no smaller key does.
pub open spec fn is_least_duplicate(keys: Seq<Seq<char>>, k: Seq<char>) -> bool {
    &&& occurs_twice(keys, k)
    &&& forall|x: Seq<char>| #[trigger] occurs_twice(keys, x) ==> !text_lt(x, k)
}

/// `k` occurs at two positions.
pub open spec fn occurs_twice(keys: Seq<Seq<char>>, k: Seq<char>) -> bool {
    exists|i: int, j: int|
        0 <= i < j < keys.len() && #[trigger] keys[i] == k && #[trigger] keys[j] == k
}

/// The error for two variables of the same name.
pub open spec fn duplicate_error(k: Seq<char>) -> CliErrorView {
    CliErrorView::InvalidArgs(
        "duplicate environment variable '"@ + k + "' — use more specific --name values"@,
    )
}

proof fn lemma_rank_of(keys: Seq<Seq<char>>, order: Seq<usize>, x: int)
    requires
        is_stable_order(keys, order),
        0 <= x < keys.len(),
    ensures
        exists|i: int| 0 <= i < order.len() && order[i] == x,
{
    crate::order::lemma_every_position_listed(keys, order, x);
}

/// A key that occurs twice stands at two neighbouring places of the order, at
/// or behind the first neighbouring pair of equal keys.
proof fn lemma_neighbours(keys: Seq<Seq<char>>, order: Seq<usize>, x: Seq<char>, n: int)
    requires
        is_stable_order(keys, order),
        0 < n <= order.len(),
        forall|k: int|
            #![trigger order[k]]
            0 < k < n ==> keys[order[k - 1] as int] != keys[order[k] as int],
        occurs_twice(keys, x),
    ensures
        n < order.len(),
        !text_lt(x, keys[order[n] as int]),
{
    let (i, j) = choose|i: int, j: int|
        0 <= i < j < keys.len() && #[trigger] keys[i] == x && #[trigger] keys[j] == x;
    lemma_rank_of(keys, order, i);
    lemma_rank_of(keys, order, j);
    let a = choose|a: int| 0 <= a < order.len() && order[a] == i;
    let b = choose|b: int| 0 <= b < order.len() && order[b] == j;
    let (lo, hi) = if a < b {
        (a, b)
    } else {
        (b, a)
    };
    assert(keys[order[lo] as int] == x && keys[order[hi] as int] == x);
    lemma_text_lt_irreflexive(x);
    if lo + 1 < hi {
        let mid = keys[order[lo + 1] as int];
        assert(position_lt(keys, order[lo] as int, order[lo + 1] as int));
        assert(position_lt(keys, order[lo + 1] as int, order[hi] as int));
        if text_lt(x, mid) && text_lt(mid, x) {
            lemma_text_lt_transitive(x, mid, x);
        }
        assert(mid == x);
    }
    assert(keys[order[lo + 1] as int] == x);
    assert(lo + 1 >= n) by {
        if lo + 1 < n {
            assert(keys[order[lo + 1 - 1] as int] != keys[order[lo + 1] as int]);
        }
    }
    if n < lo + 1 {
        assert(position_lt(keys, order[n] as int, order[lo + 1] as int));
        if text_lt(x, keys[order[n] as int]) && text_lt(keys[order[n] as int], x) {
            lemma_text_lt_transitive(x, keys[order[n] as int], x);
        }
    }
}

fn keys_of(pairs: &Vec<EnvPair>) -> (r: Vec<String>)
    ensures
        texts(r@) == pair_keys(pairs_view(pairs@)),
{
    let mut out: Vec<String> = Vec::new();
    let ghost want = pair_keys(pairs_view(pairs@));
    let mut i: usize = 0;
    while i < pairs.len()
        invariant
            i <= pairs@.len(),
            want == pair_keys(pairs_view(pairs@)),
            texts(out@) =~= want.take(i as int),
        decreases pairs@.len() - i,
    {
        let ghost before = out@;
        out.push(pairs[i].key.clone());
        assert(texts(out@) =~= texts(before).push(want[i as int]));
        i = i + 1;
    }
    assert(want.take(i as int) =~= want);
    out
}

/// No two variables may have the same name; the error names the smallest one
/// that is given twice.
pub fn check_unique(pairs: &Vec<EnvPair>) -> (r: Result<(), CliError>)
    ensures
        match r {
            Ok(_) => pair_keys(pairs_view(pairs@)).no_duplicates(),
            Err(e) => is_duplicate_error(pair_keys(pairs_view(pairs@)), e@),
        },
{
    let keys = keys_of(pairs);
    let ghost ks = texts(keys@);
    let order = stable_order(&keys);
    let mut n: usize = 1;
    while n < order.len()
        invariant
            1 <= n,
            n <= order@.len() || order@.len() == 0,
            ks == texts(keys@),
            ks == pair_keys(pairs_view(pairs@)),
            is_stable_order(ks, order@),
            forall|k: int|
                #![trigger order@[k]]
                0 < k < n ==> ks[order@[k - 1] as int] != ks[order@[k] as int],
        decreases order@.len() - n,
    {
        let a: usize = order[n - 1];
        let b: usize = order[n];
        if same(keys[a].as_str(), keys[b].as_str()) {
            proof {
                let k = ks[b as int];
                assert(position_lt(ks, a as int, b as int));
                lemma_text_lt_irreflexive(k);
                assert(a < b);
                assert(occurs_twice(ks, k));
                assert forall|x: Seq<char>| #[trigger] occurs_twice(ks, x) implies !text_lt(
                    x,
                    k,
                ) by {
                    lemma_neighbours(ks, order@, x, n as int);
                }
                assert(is_least_duplicate(ks, k));
            }
            let e = invalid_args(
                "duplicate environment variable '".to_owned().concat(keys[b].as_str()).concat(
                    "' — use more specific --name values",
                ),
            );
            assert(e@ == duplicate_error(ks[b as int]));
            return Err(e);
        }
        n = n + 1;
    }
    proof {
        assert forall|i: int, j: int|
            0 <= i < ks.len() && 0 <= j < ks.len() && i != j implies ks[i] != ks[j] by {
            if ks[i] == ks[j] {
                if i < j {
                    assert(occurs_twice(ks, ks[i]));
                } else {
                    assert(occurs_twice(ks, ks[j]));
                }
                lemma_neighbours(ks, order@, ks[i], order@.len() as int);
            }
        }
    }
    Ok(())
}

/// What to run, and with which variables.
#[derive(Debug)]
pub struct EnvPlan {
    pub program: String,
    pub args: Vec<String>,
    pub pairs: Vec<EnvPair>,
    /// Whether the command replaces this process.
    pub in_place: bool,
}

/// All the variables of a call, in the order direct, prompted, named.
pub open spec fn all_pairs(
    names: Seq<Named>,
    set: Seq<Seq<char>>,
    prompts: Seq<Prompted>,
    keep_case: bool,
) -> Result<Seq<PairView>, CliErrorView> {
    match direct_pairs(set, 0, Seq::empty()) {
        Err(e) => Err(e),
        Ok(direct) => match prompted_pairs(prompts, 0, direct) {
            Err(e) => Err(e),
            Ok(more) => all_named_pairs(names, keep_case, 0, more),
        },
    }
}

/// The error names the smallest name that is given twice.
pub open spec fn is_duplicate_error(keys: Seq<Seq<char>>, e: CliErrorView) -> bool {
    exists|k: Seq<char>| #[trigger] is_least_duplicate(keys, k) && e == duplicate_error(k)
}

/// What a call fails with: an empty command, a wrong variable, or a name that
/// is given twice.
pub open spec fn is_run_error(
    pairs: Result<Seq<PairView>, CliErrorView>,
    command_len: int,
    e: CliErrorView,
) -> bool {
    if command_len == 0 {
        e == CliErrorView::InvalidArgs("no command specified"@)
    } else {
        match pairs {
            Err(f) => e == f,
            Ok(v) => is_duplicate_error(pair_keys(v), e),
        }
    }
}

/// What to run with which variables: the first part of `command` is the
/// program. An empty command, a wrong variable and a repeated name are errors.
pub fn run(
    names: &Vec<Named>,
    set: &Vec<String>,
    prompts: &Vec<Prompted>,
    keep_case: bool,
    in_place: bool,
    command: &Vec<String>,
) -> (r: Result<EnvPlan, CliError>)
    ensures
        match r {
            Ok(p) => {
                &&& command@.len() > 0
                &&& all_pairs(names@, texts(set@), prompts@, keep_case) == Ok::<
                    Seq<PairView>,
                    CliErrorView,
                >(pairs_view(p.pairs@))
                &&& pair_keys(pairs_view(p.pairs@)).no_duplicates()
                &&& p.program@ == command@[0]@
                &&& texts(p.args@) == texts(command@).skip(1)
                &&& p.in_place == in_place
            },
            Err(e) => is_run_error(
                all_pairs(names@, texts(set@), prompts@, keep_case),
                command@.len() as int,
                e@,
            ),
        },
{
    if command.len() == 0 {
        return Err(invalid("no command specified"));
    }
    let mut pairs = match set_pairs(set) {
        Ok(v) => v,
        Err(e) => return Err(e),
    };
    let ghost direct = pairs_view(pairs@);
    let mut i: usize = 0;
    while i < prompts.len()
        invariant
            i <= prompts@.len(),
            direct_pairs(texts(set@), 0, Seq::empty()) == Ok::<Seq<PairView>, CliErrorView>(
                direct,
            ),
            prompted_pairs(prompts@, 0, direct) == prompted_pairs(
                prompts@,
                i as int,
                pairs_view(pairs@),
            ),
            command@.len() > 0,
        decreases prompts@.len() - i,
    {
        match prompt_secret(prompts[i].key.as_str(), prompts[i].line.as_str()) {
            Ok(p) => push_pair(&mut pairs, p),
            Err(e) => return Err(e),
        }
        i = i + 1;
    }
    let ghost more = pairs_view(pairs@);
    let mut k: usize = 0;
    while k < names.len()
        invariant
            k <= names@.len(),
            direct_pairs(texts(set@), 0, Seq::empty()) == Ok::<Seq<PairView>, CliErrorView>(
                direct,
            ),
            prompted_pairs(prompts@, 0, direct) == Ok::<Seq<PairView>, CliErrorView>(more),
            all_named_pairs(names@, keep_case, 0, more) == all_named_pairs(
                names@,
                keep_case,
                k as int,
                pairs_view(pairs@),
            ),
            command@.len() > 0,
        decreases names@.len() - k,
    {
        match add_named(&mut pairs, &names[k], keep_case) {
            Ok(_) => {},
            Err(e) => return Err(e),
        }
        k = k + 1;
    }
    let ghost found = pairs_view(pairs@);
    assert(all_pairs(names@, texts(set@), prompts@, keep_case) == Ok::<
        Seq<PairView>,
        CliErrorView,
    >(found));
    match check_unique(&pairs) {
        Ok(_) => {},
        Err(e) => {
            return Err(e);
        },
    }
    let mut args: Vec<String> = Vec::new();
    let mut a: usize = 1;
    while a < command.len()
        invariant
            1 <= a <= command@.len(),
            texts(args@) =~= texts(command@).subrange(1, a as int),
        decreases command@.len() - a,
    {
        let ghost before = args@;
        args.push(command[a].clone());
        assert(texts(args@) =~= texts(before).push(texts(command@)[a as int]));
        a = a + 1;
    }
    assert(texts(command@).subrange(1, a as int) =~= texts(command@).skip(1));
    Ok(EnvPlan { program: command[0].clone(), args, pairs, in_place })
}

/// The status to end with after the command: its own, or one when a signal
/// ended it.
pub fn exit_with_status(code: Option<i32>) -> (r: i32)
    ensures
        r == match code {
            Some(c) => c,
            None => 1i32,
        },
{
    match code {
        Some(c) => c,
        None => 1,
    }
}

proof fn lemma_slash_to_underscore(s: Seq<char>, i: int)
    requires
        0 <= i <= s.len(),
    ensures
        replace_from(s, "/"@, "_"@, i).len() == s.len() - i,
        forall|k: int|
            0 <= k < s.len() - i ==> #[trigger] replace_from(s, "/"@, "_"@, i)[k] == if s[i + k]
                == '/' {
                '_'
            } else {
                s[i + k]
            },
    decreases s.len() - i,
{
    reveal_strlit("/");
    reveal_strlit("_");
    if i < s.len() {
        lemma_slash_to_underscore(s, i + 1);
        let here = s.subrange(i, i + 1);
        assert(here =~= seq![s[i]]);
        assert("/"@ =~= seq!['/']);
        assert("_"@ =~= seq!['_']);
        assert(occurs_at(s, "/"@, i) <==> s[i] == '/') by {
            if occurs_at(s, "/"@, i) {
                assert(here[0] == "/"@[0]);
            }
        }
        let rest = replace_from(s, "/"@, "_"@, i + 1);
        let all = replace_from(s, "/"@, "_"@, i);
        assert forall|k: int| 0 <= k < s.len() - i implies #[trigger] all[k] == if s[i + k] == '/' {
            '_'
        } else {
            s[i + k]
        } by {
            if k > 0 {
                assert(all[k] == rest[k - 1]);
                assert(s[i + 1 + (k - 1)] == s[i + k]);
            }
        }
    }
}

/// The variable of a secret is its name with every slash as an underscore, in
/// upper case unless the case is kept.
pub proof fn law_variables_are_named_after_secrets(name: Seq<char>, i: int)
    requires
        0 <= i < name.len(),
    ensures
        env_key(name, true).len() == name.len(),
        env_key(name, true)[i] == if name[i] == '/' {
            '_'
        } else {
            name[i]
        },
        env_key(name, false) == ascii_upper(env_key(name, true)),
        !env_key(name, true).contains('/'),
{
    lemma_slash_to_underscore(name, 0);
    reveal_strlit("/");
    assert(env_key(name, true)[i] == replace_from(name, "/"@, "_"@, 0)[i]);
    if env_key(name, true).contains('/') {
        let k = choose|k: int| 0 <= k < name.len() && env_key(name, true)[k] == '/';
        assert(replace_from(name, "/"@, "_"@, 0)[k] == '/');
    }
}

/// A pair that is given sets its key, up to the first `=`, to all that follows
/// it; a key is needed, and neither may hold a NUL.
pub proof fn law_given_pairs_are_key_and_value(k: Seq<char>, v: Seq<char>)
    requires
        !k.contains('='),
    ensures
        direct_pair(k + seq!['='] + v) is Ok <==> k.len() > 0 && !k.contains('\0') && !v.contains(
            '\0',
        ),
        direct_pair(k + seq!['='] + v) matches Ok(p) ==> p.key == k && p.value == v,
        direct_pair(k) is Err,
{
    law_sides_are_cut_apart(k, '=', v);
    law_cutting_gives_both_sides(k, '=');
}

/// The given pairs are all taken, each as it is, in their order.
pub proof fn law_given_pairs_are_all_taken(pairs: Seq<Seq<char>>, i: int, acc: Seq<PairView>)
    requires
        0 <= i <= pairs.len(),
    ensures
        direct_pairs(pairs, i, acc) matches Ok(v) ==> v.len() == acc.len() + pairs.len() - i
            && acc.is_prefix_of(v) && (forall|k: int|
            i <= k < pairs.len() ==> direct_pair(#[trigger] pairs[k]) == Ok::<
                PairView,
                CliErrorView,
            >(v[acc.len() + k - i])),
        direct_pairs(pairs, i, acc) is Err ==> exists|k: int|
            i <= k < pairs.len() && direct_pair(#[trigger] pairs[k]) is Err,
    decreases pairs.len() - i,
{
    if i < pairs.len() {
        if let Ok(p) = direct_pair(pairs[i]) {
            let next = acc.push(p);
            law_given_pairs_are_all_taken(pairs, i + 1, next);
            if let Ok(v) = direct_pairs(pairs, i + 1, next) {
                assert(next[acc.len() as int] == p);
                assert(v[acc.len() as int] == p);
                assert(acc.is_prefix_of(v)) by {
                    assert(v.take(acc.len() as int) =~= acc);
                }
                assert forall|k: int| i <= k < pairs.len() implies direct_pair(#[trigger] pairs[k])
                    == Ok::<PairView, CliErrorView>(v[acc.len() + k - i]) by {
                    if k > i {
                        assert(next.len() + k - (i + 1) == acc.len() + k - i);
                    }
                }
            }
        }
    }
}

/// A typed value is the line without its line break, for the key that was asked
/// for.
pub proof fn law_typed_values_keep_their_key(key: Seq<char>, line: Seq<char>)
    ensures
        prompted(key, line) matches Ok(p) ==> p.key == key && p.value.is_prefix_of(line)
            && p.value.len() > 0 && !p.value.contains('\0') && key.len() > 0 && !key.contains('\0'),
        key.len() > 0 && !key.contains('\0') && line.len() > 0 && !line.contains('\0')
            && line.last() != '\n' && line.last() != '\r' ==> prompted(key, line) == Ok::<
            PairView,
            CliErrorView,
        >(PairView { key, value: line }),
{
    let set = seq!['\n', '\r'];
    law_trimmed_ends_are_of_the_set(line, set);
    if line.len() > 0 && set.contains(line.last()) {
        assert(set[0] == '\n' && set[1] == '\r');
    }
}

/// A secret that is found by its name gives one variable, named after it, with
/// its value.
pub proof fn law_secrets_become_variables(n: Named, keep_case: bool, acc: Seq<PairView>)
    requires
        n.lookup is Found,
    ensures
        n.lookup->Found_0 matches Secret::Value(v) ==> named_pairs(n, keep_case, acc) == Ok::<
            Seq<PairView>,
            CliErrorView,
        >(acc.push(PairView { key: env_key(n.name@, keep_case), value: v@ })),
        !(n.lookup->Found_0 is Value) ==> named_pairs(n, keep_case, acc) is Err,
{
}

proof fn lemma_directory_pairs(
    prefix: Seq<char>,
    list: Seq<Listed>,
    keep_case: bool,
    i: int,
    acc: Seq<PairView>,
    k: int,
)
    requires
        0 <= i <= k < list.len(),
        prefix.is_prefix_of(list[k].name@),
    ensures
        directory_pairs(prefix, list, keep_case, i, acc) matches Ok(v) ==> acc.is_prefix_of(v) && (
        list[k].secret matches Secret::Value(s) && v.contains(
            PairView {
                key: env_key(list[k].name@.skip(prefix.len() as int), keep_case),
                value: s@,
            },
        )),
    decreases list.len() - i,
{
    if strip_prefix(list[i].name@, prefix) is None {
        lemma_directory_pairs(prefix, list, keep_case, i + 1, acc, k);
    } else {
        let rest = strip_prefix(list[i].name@, prefix)->0;
        if let Ok(p) = secret_pair(list[i].name@, env_key(rest, keep_case), list[i].secret) {
            let next = acc.push(p);
            if i < k {
                lemma_directory_pairs(prefix, list, keep_case, i + 1, next, k);
                if let Ok(v) = directory_pairs(prefix, list, keep_case, i + 1, next) {
                    assert(v.take(acc.len() as int) =~= acc);
                }
            } else {
                lemma_directory_keeps(prefix, list, keep_case, i + 1, next);
                if let Ok(v) = directory_pairs(prefix, list, keep_case, i + 1, next) {
                    assert(v.take(acc.len() as int) =~= acc);
                    assert(v[acc.len() as int] == next[acc.len() as int]);
                    assert(v.contains(p));
                }
            }
        }
    }
}

proof fn lemma_directory_keeps(
    prefix: Seq<char>,
    list: Seq<Listed>,
    keep_case: bool,
    i: int,
    acc: Seq<PairView>,
)
    requires
        0 <= i <= list.len(),
    ensures
        directory_pairs(prefix, list, keep_case, i, acc) matches Ok(v) ==> acc.is_prefix_of(v),
    decreases list.len() - i,
{
    if i < list.len() {
        if strip_prefix(list[i].name@, prefix) is None {
            lemma_directory_keeps(prefix, list, keep_case, i + 1, acc);
        } else {
            let rest = strip_prefix(list[i].name@, prefix)->0;
            if let Ok(p) = secret_pair(list[i].name@, env_key(rest, keep_case), list[i].secret) {
                lemma_directory_keeps(prefix, list, keep_case, i + 1, acc.push(p));
                if let Ok(v) = directory_pairs(prefix, list, keep_case, i + 1, acc.push(p)) {
                    assert(v.take(acc.len() as int) =~= acc);
                }
            }
        }
    }
}

/// A directory gives every secret below it, each named after its path below the
/// directory, with its value.
pub proof fn law_directories_give_all_below(
    prefix: Seq<char>,
    list: Seq<Listed>,
    keep_case: bool,
    acc: Seq<PairView>,
    k: int,
)
    requires
        0 <= k < list.len(),
        prefix.is_prefix_of(list[k].name@),
    ensures
        directory_pairs(prefix, list, keep_case, 0, acc) matches Ok(v) ==> (
        list[k].secret matches Secret::Value(s) && v.contains(
            PairView {
                key: env_key(list[k].name@.skip(prefix.len() as int), keep_case),
                value: s@,
            },
        )),
{
    lemma_directory_pairs(prefix, list, keep_case, 0, acc, k);
}

/// Typed values stand behind what was there, each in its order; the first that is
/// refused refuses all.
pub proof fn law_typed_values_are_all_taken(v: Seq<Prompted>, i: int, acc: Seq<PairView>)
    requires
        0 <= i <= v.len(),
    ensures
        prompted_pairs(v, i, acc) matches Ok(w) ==> w.len() == acc.len() + v.len() - i
            && acc.is_prefix_of(w) && (forall|k: int|
            i <= k < v.len() ==> prompted((#[trigger] v[k]).key@, v[k].line@) == Ok::<
                PairView,
                CliErrorView,
            >(w[acc.len() + k - i])),
        prompted_pairs(v, i, acc) is Err ==> exists|k: int|
            i <= k < v.len() && prompted((#[trigger] v[k]).key@, v[k].line@) is Err,
    decreases v.len() - i,
{
    if i < v.len() {
        let p = prompted(v[i].key@, v[i].line@);
        if let Ok(p) = p {
            let next = acc.push(p);
            law_typed_values_are_all_taken(v, i + 1, next);
            if let Ok(w) = prompted_pairs(v, i + 1, next) {
                assert(w.take(acc.len() as int) =~= next.take(acc.len() as int));
                assert(next.take(acc.len() as int) =~= acc);
                assert(w[acc.len() as int] == next[acc.len() as int]);
                assert forall|k: int| i <= k < v.len() implies prompted(
                    (#[trigger] v[k]).key@,
                    v[k].line@,
                ) == Ok::<PairView, CliErrorView>(w[acc.len() + k - i]) by {
                    if k > i {
                        assert(next.len() + k - (i + 1) == acc.len() + k - i);
                    }
                }
            }
        }
    } else {
        assert(acc.take(acc.len() as int) =~= acc);
    }
}

proof fn lemma_named_keep(n: Named, keep_case: bool, acc: Seq<PairView>)
    ensures
        named_pairs(n, keep_case, acc) matches Ok(v) ==> acc.is_prefix_of(v),
{
    if let Lookup::Found(s) = n.lookup {
        if let Ok(p) = secret_pair(n.name@, env_key(n.name@, keep_case), s) {
            assert(acc.push(p).take(acc.len() as int) =~= acc);
        }
    }
    if let Lookup::NotFound(Ok(list)) = n.lookup {
        lemma_directory_keeps(n.name@ + "/"@, list@, keep_case, 0, acc);
    }
}

proof fn lemma_all_named_keep(v: Seq<Named>, keep_case: bool, i: int, acc: Seq<PairView>)
    requires
        0 <= i <= v.len(),
    ensures
        all_named_pairs(v, keep_case, i, acc) matches Ok(w) ==> acc.is_prefix_of(w),
    decreases v.len() - i,
{
    if i < v.len() {
        lemma_named_keep(v[i], keep_case, acc);
        if let Ok(next) = named_pairs(v[i], keep_case, acc) {
            lemma_all_named_keep(v, keep_case, i + 1, next);
            if let Ok(w) = all_named_pairs(v, keep_case, i + 1, next) {
                assert(w.take(acc.len() as int) =~= next.take(acc.len() as int));
            }
        }
    }
}

/// The variables are the given pairs, the typed ones and then those of the named
/// secrets; one that is refused, of any kind, refuses all.
pub proof fn law_variables_come_in_order(
    names: Seq<Named>,
    set: Seq<Seq<char>>,
    prompts: Seq<Prompted>,
    keep_case: bool,
)
    ensures
        all_pairs(names, set, prompts, keep_case) matches Ok(v) ==> v.len() >= set.len()
            + prompts.len() && (forall|k: int|
            0 <= k < set.len() ==> direct_pair(#[trigger] set[k]) == Ok::<PairView, CliErrorView>(
                v[k],
            )) && (forall|k: int|
            0 <= k < prompts.len() ==> prompted((#[trigger] prompts[k]).key@, prompts[k].line@)
                == Ok::<PairView, CliErrorView>(v[set.len() + k])),
        (exists|k: int| 0 <= k < set.len() && direct_pair(#[trigger] set[k]) is Err) ==> all_pairs(
            names,
            set,
            prompts,
            keep_case,
        ) is Err,
        names.len() == 0 ==> (all_pairs(names, set, prompts, keep_case) matches Ok(v) ==> v.len()
            == set.len() + prompts.len()),
{
    law_given_pairs_are_all_taken(set, 0, Seq::empty());
    if let Ok(direct) = direct_pairs(set, 0, Seq::empty()) {
        law_typed_values_are_all_taken(prompts, 0, direct);
        if let Ok(more) = prompted_pairs(prompts, 0, direct) {
            lemma_all_named_keep(names, keep_case, 0, more);
            if let Ok(v) = all_named_pairs(names, keep_case, 0, more) {
                assert forall|k: int| 0 <= k < set.len() implies direct_pair(#[trigger] set[k])
                    == Ok::<PairView, CliErrorView>(v[k]) by {
                    assert(v[k] == v.take(more.len() as int)[k]);
                    assert(more[k] == more.take(direct.len() as int)[k]);
                    assert(direct[k] == direct[0 + k - 0]);
                }
                assert forall|k: int| 0 <= k < prompts.len() implies prompted(
                    (#[trigger] prompts[k]).key@,
                    prompts[k].line@,
                ) == Ok::<PairView, CliErrorView>(v[set.len() + k]) by {
                    assert(v[set.len() + k] == v.take(more.len() as int)[set.len() + k]);
                }
            }
        }
    }
}

/// A variable that is given twice is refused by name, the first of them in the order
/// of the alphabet; that no command was given is said before that.
pub proof fn law_repeated_variables_are_refused(
    v: Seq<PairView>,
    command_len: int,
    e: CliErrorView,
)
    requires
        is_run_error(Ok::<Seq<PairView>, CliErrorView>(v), command_len, e),
    ensures
        command_len == 0 ==> e == CliErrorView::InvalidArgs("no command specified"@),
        command_len != 0 ==> exists|i: int, j: int|
            0 <= i < j < v.len() && (#[trigger] v[i]).key == (#[trigger] v[j]).key && e
                == CliErrorView::InvalidArgs(
                "duplicate environment variable '"@ + v[i].key
                    + "' — use more specific --name values"@,
            ) && (forall|a: int, b: int|
                0 <= a < b < v.len() && (#[trigger] v[a]).key == (#[trigger] v[b]).key ==> !text_lt(
                    v[a].key,
                    v[i].key,
                )),
{
    if command_len != 0 {
        let keys = pair_keys(v);
        let k = choose|k: Seq<char>| #[trigger] is_least_duplicate(keys, k) && e == duplicate_error(k);
        let (i, j) = choose|i: int, j: int|
            0 <= i < j < keys.len() && #[trigger] keys[i] == k && #[trigger] keys[j] == k;
        assert(v[i].key == k && v[j].key == k);
        assert forall|a: int, b: int|
            0 <= a < b < v.len() && (#[trigger] v[a]).key == (#[trigger] v[b]).key implies !text_lt(
            v[a].key,
            v[i].key,
        ) by {
            assert(keys[a] == v[a].key && keys[b] == v[a].key);
            assert(occurs_twice(keys, v[a].key));
        }
    }
}

/// What is read of the value in a contract is the value itself, each part under its
/// own name.
pub proof fn law_env_pair_views_keep_each_value(x: EnvPair)
    ensures
        x@.key == x.key@,
        x@.value == x.value@,
{
}

/// Variables that are refused are refused for the reason that was found.
pub proof fn law_refused_variables_keep_their_reason(
    f: CliErrorView,
    command_len: int,
    e: CliErrorView,
)
    requires
        is_run_error(Err::<Seq<PairView>, CliErrorView>(f), command_len, e),
    ensures
        command_len != 0 ==> e == f,
        command_len == 0 ==> e == CliErrorView::InvalidArgs("no command specified"@),
{
}

} // verus!
