//! `find`: searching the items of the secret store by name and metadata.
use vstd::prelude::*;

use crate::commands::secret::{index_text, is_listed, list, listed, print_index_entry, IndexEntry};
use crate::commands::ItemType;
use crate::error::{invalid_args, CliError, CliErrorView};
use crate::order::{is_ranking, ranking, ranking_of};
use crate::pattern::{build, is_match, regex_matches, regex_of};
use crate::text::{ascii_lower, chars_of, text_range, to_ascii_lower};

verus! {

// ---------------------------------------------------------------------------
// Fuzzy scores
// ---------------------------------------------------------------------------

/// A character that ends a word.
pub open spec fn separates(c: char) -> bool {
    c == '-' || c == '_' || c == '/' || c == '.'
}

/// A character that ends a word.
pub fn is_separator(c: char) -> (r: bool)
    ensures
        r == separates(c),
{
    c == '-' || c == '_' || c == '/' || c == '.'
}

/// What a matched character at `ti` earns, as the next of a run of `run`
/// matches: ten, five for each match before it in the run, fifteen at the
/// start of a word, and more the earlier it stands.
pub open spec fn gain(t: Seq<char>, ti: int, run: int) -> int {
    10 + run * 5 + (if ti == 0 || separates(t[ti - 1]) {
        15int
    } else {
        0
    }) + (t.len() - ti)
}

/// How many characters of `q` are found, and what they earn, when the
/// characters of `t` from `ti` on are matched one after the other against
/// those of `q` from `qi` on.
pub open spec fn fuzzy_run(
    q: Seq<char>,
    t: Seq<char>,
    ti: int,
    qi: int,
    run: int,
    score: int,
) -> (int, int)
    decreases t.len() - ti,
{
    if ti >= t.len() || qi >= q.len() {
        (qi, score)
    } else if t[ti] == q[qi] {
        fuzzy_run(q, t, ti + 1, qi + 1, run + 1, score + gain(t, ti, run))
    } else {
        fuzzy_run(q, t, ti + 1, qi, 0, score)
    }
}

/// How many characters of a query a name holds in order, ignoring case, and
/// what they earn.
pub open spec fn fuzzy_points(query: Seq<char>, target: Seq<char>) -> (int, int) {
    fuzzy_run(ascii_lower(query), ascii_lower(target), 0, 0, 0, 0)
}

/// The score of a name that holds all characters of a query.
pub open spec fn fuzzy(query: Seq<char>, target: Seq<char>) -> Option<int> {
    let (found, score) = fuzzy_points(query, target);
    if found == query.len() {
        Some(score)
    } else {
        None
    }
}

/// Scores stay small: each character earns at most a fixed part and six for
/// each character of the name.
pub open spec fn points_bound(n: int, k: int) -> int {
    k * (25 + 6 * n)
}

proof fn lemma_points_step(n: int, k: int)
    requires
        0 <= k < n <= u32::MAX,
    ensures
        points_bound(n, k + 1) == points_bound(n, k) + 25 + 6 * n,
        points_bound(n, k + 1) <= u128::MAX,
{
    assert((k + 1) * (25 + 6 * n) == k * (25 + 6 * n) + 25 + 6 * n) by (nonlinear_arith);
    assert((k + 1) * (25 + 6 * n) <= n * (25 + 6 * n)) by (nonlinear_arith)
        requires
            0 <= k < n,
    ;
    assert(n * (25 + 6 * n) <= 0xffff_ffff * (25 + 6 * 0xffff_ffff)) by (nonlinear_arith)
        requires
            0 <= n <= 0xffff_ffff,
    ;
}

/// How many characters are found, and what they earn.
fn points(query: &str, target: &str) -> (r: (usize, u128))
    requires
        target@.len() <= u32::MAX,
    ensures
        (r.0 as int, r.1 as int) == fuzzy_points(query@, target@),
{
    let q = chars_of(to_ascii_lower(query).as_str());
    let t = chars_of(to_ascii_lower(target).as_str());
    let n: usize = t.len();
    let mut score: u128 = 0;
    let mut run: usize = 0;
    let mut qi: usize = 0;
    let mut ti: usize = 0;
    while ti < n && qi < q.len()
        invariant
            ti <= n,
            n == t@.len(),
            n <= u32::MAX,
            qi <= q@.len(),
            run <= ti,
            score <= points_bound(n as int, ti as int),
            fuzzy_run(q@, t@, 0, 0, 0, 0) == fuzzy_run(
                q@,
                t@,
                ti as int,
                qi as int,
                run as int,
                score as int,
            ),
        decreases n - ti,
    {
        proof {
            lemma_points_step(n as int, ti as int);
        }
        if t[ti] == q[qi] {
            let bonus: u128 = if ti == 0 || is_separator(t[ti - 1]) {
                15
            } else {
                0
            };
            let earned: u128 = 10 + run as u128 * 5 + bonus + (n - ti) as u128;
            score = score + earned;
            run = run + 1;
            qi = qi + 1;
        } else {
            run = 0;
        }
        ti = ti + 1;
    }
    (qi, score)
}

/// The score of a name that holds all characters of a query.
fn score(query: &str, target: &str) -> (r: Option<u128>)
    requires
        target@.len() <= u32::MAX,
    ensures
        match r {
            Some(s) => fuzzy(query@, target@) == Some(s as int),
            None => fuzzy(query@, target@) is None,
        },
{
    let (found, score) = points(query, target);
    if found == query.unicode_len() {
        Some(score)
    } else {
        None
    }
}

/// The score of a name that holds all characters of a query in their order,
/// for names whose points fit the result.
pub fn fuzzy_score(query: &str, target: &str) -> (r: Option<u32>)
    requires
        target@.len() <= u32::MAX,
        fuzzy_points(query@, target@).1 <= u32::MAX,
    ensures
        match r {
            Some(s) => fuzzy(query@, target@) == Some(s as int),
            None => fuzzy(query@, target@) is None,
        },
{
    match score(query, target) {
        Some(s) => Some(s as u32),
        None => None,
    }
}

/// The names of items are short enough to be scored.
pub open spec fn names_fit(entries: Seq<IndexEntry>) -> bool {
    forall|i: int| 0 <= i < entries.len() ==> (#[trigger] entries[i]).name@.len() <= u32::MAX
}

/// The score of an item that is listed and whose name holds the query.
pub open spec fn entry_score(e: IndexEntry, query: Seq<char>, filter: Option<ItemType>) -> Option<
    u128,
> {
    if is_listed(e, filter) {
        match fuzzy(query, e.name@) {
            Some(s) => Some(s as u128),
            None => None,
        }
    } else {
        None
    }
}

/// The scores of items.
pub open spec fn entry_scores(
    entries: Seq<IndexEntry>,
    query: Seq<char>,
    filter: Option<ItemType>,
) -> Seq<Option<u128>> {
    Seq::new(entries.len(), |i: int| entry_score(entries[i], query, filter))
}

/// The items that a query scores, best first.
pub open spec fn fuzzy_order(
    entries: Seq<IndexEntry>,
    query: Seq<char>,
    filter: Option<ItemType>,
) -> Seq<usize> {
    ranking_of(entry_scores(entries, query, filter))
}

fn wanted(e: &IndexEntry, filter: Option<ItemType>) -> (r: bool)
    ensures
        r == is_listed(*e, filter),
{
    match filter {
        None => true,
        Some(t) => t == e.item_type,
    }
}

fn rank_entries(entries: &Vec<IndexEntry>, query: &str, filter: Option<ItemType>) -> (r: Vec<usize>)
    requires
        names_fit(entries@),
    ensures
        r@ == fuzzy_order(entries@, query@, filter),
        is_ranking(entry_scores(entries@, query@, filter), r@),
{
    let mut scores: Vec<Option<u128>> = Vec::new();
    let mut i: usize = 0;
    while i < entries.len()
        invariant
            i <= entries@.len(),
            names_fit(entries@),
            scores@ =~= entry_scores(entries@, query@, filter).take(i as int),
        decreases entries@.len() - i,
    {
        let e = &entries[i];
        assert(entries@[i as int].name@.len() <= u32::MAX);
        let s: Option<u128> = if wanted(e, filter) {
            score(query, e.name.as_str())
        } else {
            None
        };
        scores.push(s);
        i = i + 1;
    }
    assert(scores@ =~= entry_scores(entries@, query@, filter));
    ranking(&scores)
}

/// How many items a fuzzy search shows.
pub const TOP: usize = 10;

/// The best items that a query scores.
pub open spec fn fuzzy_found(
    entries: Seq<IndexEntry>,
    query: Seq<char>,
    filter: Option<ItemType>,
) -> Seq<usize> {
    let all = fuzzy_order(entries, query, filter);
    if all.len() > TOP {
        all.take(TOP as int)
    } else {
        all
    }
}

/// The best ten items that a query scores, best first.
pub fn fuzzy_search(query: &str, entries: &Vec<IndexEntry>, filter: Option<ItemType>) -> (r: Vec<
    usize,
>)
    requires
        names_fit(entries@),
    ensures
        r@ == fuzzy_found(entries@, query@, filter),
{
    let mut r = rank_entries(entries, query, filter);
    if r.len() > TOP {
        r.truncate(TOP);
        assert(r@ =~= fuzzy_order(entries@, query@, filter).take(TOP as int));
    }
    r
}

// ---------------------------------------------------------------------------
// Regular expressions
// ---------------------------------------------------------------------------

/// A text that is there matches.
pub open spec fn opt_matches(re: regex_lite::Regex, o: Option<String>) -> bool {
    o matches Some(s) && regex_matches(re, s@)
}

/// The name of an item, or a part of its metadata, matches.
pub open spec fn entry_matches(re: regex_lite::Regex, e: IndexEntry) -> bool {
    ||| regex_matches(re, e.name@)
    ||| opt_matches(re, e.metadata.url)
    ||| opt_matches(re, e.metadata.username)
    ||| opt_matches(re, e.metadata.issuer)
    ||| opt_matches(re, e.metadata.account)
    ||| exists|i: int|
        0 <= i < e.metadata.tags@.len() && regex_matches(re, #[trigger] e.metadata.tags@[i]@)
}

fn matches_opt(re: &regex_lite::Regex, o: &Option<String>) -> (r: bool)
    ensures
        r == opt_matches(*re, *o),
{
    match o {
        Some(s) => is_match(re, s.as_str()),
        None => false,
    }
}

fn matches_entry(re: &regex_lite::Regex, e: &IndexEntry) -> (r: bool)
    ensures
        r == entry_matches(*re, *e),
{
    if is_match(re, e.name.as_str()) || matches_opt(re, &e.metadata.url) || matches_opt(
        re,
        &e.metadata.username,
    ) || matches_opt(re, &e.metadata.issuer) || matches_opt(re, &e.metadata.account) {
        return true;
    }
    let mut i: usize = 0;
    while i < e.metadata.tags.len()
        invariant
            i <= e.metadata.tags@.len(),
            forall|k: int|
                0 <= k < i ==> !regex_matches(*re, #[trigger] e.metadata.tags@[k]@),
        decreases e.metadata.tags@.len() - i,
    {
        if is_match(re, e.metadata.tags[i].as_str()) {
            assert(regex_matches(*re, e.metadata.tags@[i as int]@));
            return true;
        }
        i = i + 1;
    }
    false
}

/// The listed items that match.
pub open spec fn regex_found(
    entries: Seq<IndexEntry>,
    re: regex_lite::Regex,
    filter: Option<ItemType>,
) -> Seq<usize>
    decreases entries.len(),
{
    if entries.len() == 0 {
        Seq::empty()
    } else {
        let rest = regex_found(entries.drop_last(), re, filter);
        if entry_matches(re, entries.last()) && is_listed(entries.last(), filter) {
            rest.push((entries.len() - 1) as usize)
        } else {
            rest
        }
    }
}

/// A result over positions.
pub open spec fn positions_result(r: Result<Vec<usize>, CliError>) -> Result<
    Seq<usize>,
    CliErrorView,
> {
    match r {
        Ok(v) => Ok(v@),
        Err(e) => Err(e@),
    }
}

/// What a search by a regular expression finds.
pub open spec fn regex_result(
    entries: Seq<IndexEntry>,
    pattern: Seq<char>,
    filter: Option<ItemType>,
) -> Result<Seq<usize>, CliErrorView> {
    match regex_of(pattern, true) {
        Ok(re) => Ok(regex_found(entries, re, filter)),
        Err(e) => Err(CliErrorView::InvalidArgs("invalid regex: "@ + e)),
    }
}

/// The listed items whose name or metadata match a regular expression, in any
/// case.
pub fn regex_search(entries: &Vec<IndexEntry>, pattern: &str, filter: Option<ItemType>) -> (r:
    Result<Vec<usize>, CliError>)
    ensures
        positions_result(r) == regex_result(entries@, pattern@, filter),
{
    let re = match build(pattern, true) {
        Ok(re) => re,
        Err(e) => {
            return Err(invalid_args("invalid regex: ".to_owned().concat(e.as_str())));
        },
    };
    let mut out: Vec<usize> = Vec::new();
    let mut i: usize = 0;
    assert(entries@.take(0) =~= Seq::<IndexEntry>::empty());
    while i < entries.len()
        invariant
            i <= entries@.len(),
            out@ == regex_found(entries@.take(i as int), re, filter),
        decreases entries@.len() - i,
    {
        assert(entries@.take(i + 1).drop_last() =~= entries@.take(i as int));
        if matches_entry(&re, &entries[i]) && wanted(&entries[i], filter) {
            out.push(i);
        }
        i = i + 1;
    }
    assert(entries@.take(i as int) =~= entries@);
    Ok(out)
}

// ---------------------------------------------------------------------------
// The search
// ---------------------------------------------------------------------------

/// The hits that are listed.
pub open spec fn listed_hits(
    hits: Seq<usize>,
    entries: Seq<IndexEntry>,
    filter: Option<ItemType>,
) -> Seq<usize>
    decreases hits.len(),
{
    if hits.len() == 0 {
        Seq::empty()
    } else {
        let rest = listed_hits(hits.drop_last(), entries, filter);
        if is_listed(entries[hits.last() as int], filter) {
            rest.push(hits.last())
        } else {
            rest
        }
    }
}

/// What a search finds. Without a query that is everything listed; with a
/// regular expression, what matches it; otherwise the items that the store
/// found by the text of the query, or, when it found none, the best fuzzy
/// matches.
pub open spec fn found(
    entries: Seq<IndexEntry>,
    query: Option<Seq<char>>,
    regex: bool,
    filter: Option<ItemType>,
    hits: Seq<usize>,
) -> Result<Seq<usize>, CliErrorView> {
    match query {
        None => Ok(listed(entries, filter)),
        Some(q) => if regex {
            regex_result(entries, q, filter)
        } else if listed_hits(hits, entries, filter).len() > 0 {
            Ok(listed_hits(hits, entries, filter))
        } else {
            Ok(fuzzy_found(entries, q, filter))
        },
    }
}

/// What a search finds among the items of the store; `hits` are the ones that
/// the store found by the text of the query.
pub fn run(
    entries: &Vec<IndexEntry>,
    query: &Option<String>,
    regex: bool,
    filter: Option<ItemType>,
    hits: &Vec<usize>,
) -> (r: Result<Vec<usize>, CliError>)
    requires
        names_fit(entries@),
        forall|i: int| 0 <= i < hits@.len() ==> #[trigger] hits@[i] < entries@.len(),
    ensures
        positions_result(r) == found(
            entries@,
            crate::text::opt_text(*query),
            regex,
            filter,
            hits@,
        ),
{
    let q: &str = match query {
        None => return Ok(list(entries, filter)),
        Some(q) => q.as_str(),
    };
    if regex {
        return regex_search(entries, q, filter);
    }
    let mut out: Vec<usize> = Vec::new();
    let mut i: usize = 0;
    assert(hits@.take(0) =~= Seq::<usize>::empty());
    while i < hits.len()
        invariant
            i <= hits@.len(),
            forall|k: int| 0 <= k < hits@.len() ==> #[trigger] hits@[k] < entries@.len(),
            out@ == listed_hits(hits@.take(i as int), entries@, filter),
        decreases hits@.len() - i,
    {
        assert(hits@.take(i + 1).drop_last() =~= hits@.take(i as int));
        let p: usize = hits[i];
        if wanted(&entries[p], filter) {
            out.push(p);
        }
        i = i + 1;
    }
    assert(hits@.take(i as int) =~= hits@);
    if out.len() > 0 {
        return Ok(out);
    }
    Ok(fuzzy_search(q, entries, filter))
}

/// How the result of a search is shown.
#[derive(Clone, Copy, Debug, PartialEq, Eq, Structural)]
pub enum Shown {
    /// That nothing was found.
    Nothing,
    /// The only item, as JSON or as text.
    One { json: bool },
    /// All items, as JSON.
    Json,
    /// A selector on the terminal.
    Select,
    /// All items, as text.
    All,
}

/// How `n` items are shown.
pub fn shown(n: usize, json: bool, terminal: bool) -> (r: Shown)
    ensures
        r == if n == 0 {
            Shown::Nothing
        } else if n == 1 {
            Shown::One { json }
        } else if json {
            Shown::Json
        } else if terminal {
            Shown::Select
        } else {
            Shown::All
        },
{
    if n == 0 {
        Shown::Nothing
    } else if n == 1 {
        Shown::One { json }
    } else if json {
        Shown::Json
    } else if terminal {
        Shown::Select
    } else {
        Shown::All
    }
}

/// Items as text, each with an empty line behind it.
pub open spec fn entries_text(entries: Seq<IndexEntry>, at: Seq<usize>) -> Seq<char>
    decreases at.len(),
{
    if at.len() == 0 {
        Seq::empty()
    } else {
        entries_text(entries, at.drop_last()) + index_text(entries[at.last() as int]) + "\n"@
    }
}

/// Items as text, each with an empty line behind it.
pub fn print_all(entries: &Vec<IndexEntry>, at: &Vec<usize>) -> (r: String)
    requires
        forall|i: int| 0 <= i < at@.len() ==> #[trigger] at@[i] < entries@.len(),
    ensures
        r@ == entries_text(entries@, at@),
{
    let mut out = String::new();
    let mut i: usize = 0;
    assert(at@.take(0) =~= Seq::<usize>::empty());
    while i < at.len()
        invariant
            i <= at@.len(),
            forall|k: int| 0 <= k < at@.len() ==> #[trigger] at@[k] < entries@.len(),
            out@ == entries_text(entries@, at@.take(i as int)),
        decreases at@.len() - i,
    {
        assert(at@.take(i + 1).drop_last() =~= at@.take(i as int));
        let p: usize = at[i];
        out = out.concat(print_index_entry(&entries[p]).as_str()).concat("\n");
        i = i + 1;
    }
    assert(at@.take(i as int) =~= at@);
    out
}

// ---------------------------------------------------------------------------
// The selector
// ---------------------------------------------------------------------------

/// A key of the selector.
#[derive(Clone, Copy, Debug, PartialEq, Eq, Structural)]
pub enum Key {
    Up,
    Down,
    Enter,
    Esc,
    Backspace,
    Char { c: char, control: bool },
    Other,
}

/// What a key leads to.
#[derive(Clone, Copy, Debug, PartialEq, Eq, Structural)]
pub enum Step {
    /// The selector goes on.
    Continue,
    /// An item was chosen.
    Chosen(usize),
    /// The selector was left.
    Cancelled,
}

/// The selector: the query so far, the items that it leaves, and the marked
/// one among these.
#[derive(Debug)]
pub struct Selector {
    pub selected: usize,
    pub query: String,
    pub filtered: Vec<usize>,
}

/// [`Selector`] with its text as a sequence of characters.
pub struct SelectorView {
    pub selected: int,
    pub query: Seq<char>,
    pub filtered: Seq<usize>,
}

impl View for Selector {
    type V = SelectorView;

    open spec fn view(&self) -> SelectorView {
        SelectorView {
            selected: self.selected as int,
            query: self.query@,
            filtered: self.filtered@,
        }
    }
}

/// All positions below `n`.
pub open spec fn everything(n: nat) -> Seq<usize> {
    Seq::new(n, |i: int| i as usize)
}

/// The items that a query leaves: all of them without a query, otherwise those
/// that it scores, best first.
pub open spec fn left_by(entries: Seq<IndexEntry>, query: Seq<char>) -> Seq<usize> {
    if query.len() == 0 {
        everything(entries.len())
    } else {
        fuzzy_order(entries, query, None)
    }
}

/// A selector of these items: it shows what its query leaves, and marks one of
/// them, if there is one.
pub open spec fn selects(s: SelectorView, entries: Seq<IndexEntry>) -> bool {
    &&& s.filtered == left_by(entries, s.query)
    &&& s.query.len() > 0 ==> is_ranking(entry_scores(entries, s.query, None), s.filtered)
    &&& if s.filtered.len() == 0 {
        s.selected == 0
    } else {
        0 <= s.selected < s.filtered.len()
    }
    &&& forall|i: int| 0 <= i < s.filtered.len() ==> #[trigger] s.filtered[i] < entries.len()
}

/// The selector with another query. The mark stays where it was, or moves up
/// to the last item that is left.
pub open spec fn with_query(s: SelectorView, entries: Seq<IndexEntry>, query: Seq<char>) -> SelectorView {
    let filtered = left_by(entries, query);
    SelectorView {
        selected: if s.selected < filtered.len() {
            s.selected
        } else if filtered.len() == 0 {
            0
        } else {
            filtered.len() - 1
        },
        query,
        filtered,
    }
}

/// The selector after a key, and what the key leads to.
pub open spec fn pressed(s: SelectorView, entries: Seq<IndexEntry>, key: Key) -> (
    SelectorView,
    Step,
) {
    let n = s.filtered.len() as int;
    match key {
        Key::Up => (
            SelectorView {
                selected: if s.selected > 0 {
                    s.selected - 1
                } else if n > 0 {
                    n - 1
                } else {
                    s.selected
                },
                ..s
            },
            Step::Continue,
        ),
        Key::Down => (
            SelectorView {
                selected: if n > 0 && s.selected < n - 1 {
                    s.selected + 1
                } else {
                    0
                },
                ..s
            },
            Step::Continue,
        ),
        Key::Enter => (
            s,
            if n > 0 {
                Step::Chosen(s.filtered[s.selected])
            } else {
                Step::Continue
            },
        ),
        Key::Esc => (s, Step::Cancelled),
        Key::Backspace => (
            with_query(
                s,
                entries,
                if s.query.len() > 0 {
                    s.query.drop_last()
                } else {
                    s.query
                },
            ),
            Step::Continue,
        ),
        Key::Char { c, control } => if (c == 'c' && control) || c == 'q' {
            (s, Step::Cancelled)
        } else {
            (with_query(s, entries, s.query.push(c)), Step::Continue)
        },
        Key::Other => (s, Step::Continue),
    }
}

fn positions_below(n: usize) -> (r: Vec<usize>)
    ensures
        r@ == everything(n as nat),
{
    let mut out: Vec<usize> = Vec::new();
    let mut i: usize = 0;
    while i < n
        invariant
            i <= n,
            out@ =~= everything(n as nat).take(i as int),
        decreases n - i,
    {
        out.push(i);
        i = i + 1;
    }
    assert(out@ =~= everything(n as nat));
    out
}

impl Selector {
    /// The selector before the first key: everything, with the first item
    /// marked.
    pub fn new(entries: &Vec<IndexEntry>) -> (s: Selector)
        ensures
            selects(s@, entries@),
            s@.query.len() == 0,
            s@.selected == 0,
    {
        Selector {
            selected: 0,
            query: String::new(),
            filtered: positions_below(entries.len()),
        }
    }

    /// Filters again, after the query has changed.
    fn update_filtered(&mut self, entries: &Vec<IndexEntry>)
        requires
            names_fit(entries@),
        ensures
            final(self)@ == with_query(old(self)@, entries@, old(self)@.query),
            selects(final(self)@, entries@),
    {
        let r: Vec<usize> = if self.query.as_str().unicode_len() == 0 {
            positions_below(entries.len())
        } else {
            rank_entries(entries, self.query.as_str(), None)
        };
        self.filtered = r;
        if self.selected >= self.filtered.len() {
            self.selected = if self.filtered.len() == 0 {
                0
            } else {
                self.filtered.len() - 1
            };
        }
    }

    /// Takes a key.
    pub fn press(&mut self, entries: &Vec<IndexEntry>, key: Key) -> (step: Step)
        requires
            names_fit(entries@),
            selects(old(self)@, entries@),
        ensures
            (final(self)@, step) == pressed(old(self)@, entries@, key),
            selects(final(self)@, entries@),
    {
        match key {
            Key::Up => {
                if self.selected > 0 {
                    self.selected = self.selected - 1;
                } else if self.filtered.len() > 0 {
                    self.selected = self.filtered.len() - 1;
                }
                Step::Continue
            },
            Key::Down => {
                if self.filtered.len() > 0 && self.selected < self.filtered.len() - 1 {
                    self.selected = self.selected + 1;
                } else {
                    self.selected = 0;
                }
                Step::Continue
            },
            Key::Enter => {
                if self.filtered.len() > 0 {
                    Step::Chosen(self.filtered[self.selected])
                } else {
                    Step::Continue
                }
            },
            Key::Esc => Step::Cancelled,
            Key::Backspace => {
                let v = chars_of(self.query.as_str());
                if v.len() > 0 {
                    let shorter = text_range(&v, 0, v.len() - 1);
                    assert(shorter@ =~= v@.drop_last());
                    self.query = shorter;
                }
                self.update_filtered(entries);
                Step::Continue
            },
            Key::Char { c, control } => {
                if (c == 'c' && control) || c == 'q' {
                    return Step::Cancelled;
                }
                self.query.push(c);
                self.update_filtered(entries);
                Step::Continue
            },
            Key::Other => Step::Continue,
        }
    }
}

/// What is chosen with a query holds every character of it: choosing never
/// leaves what the query selects.
pub proof fn law_chosen_items_match_the_query(s: SelectorView, entries: Seq<IndexEntry>)
    requires
        selects(s, entries),
        s.query.len() > 0,
    ensures
        pressed(s, entries, Key::Enter).1 matches Step::Chosen(i) ==> i < entries.len() && fuzzy(
            s.query,
            entries[i as int].name@,
        ) is Some,
{
    if s.filtered.len() > 0 {
        let i = s.filtered[s.selected];
        assert(entry_scores(entries, s.query, None)[i as int] is Some);
    }
}

/// Going down and up again marks the same item, wherever the mark stands.
pub proof fn law_up_undoes_down(s: SelectorView, entries: Seq<IndexEntry>)
    requires
        selects(s, entries),
    ensures
        pressed(pressed(s, entries, Key::Down).0, entries, Key::Up).0 == s,
{
}

/// The characters of `q` occur in `t` in their order, with anything between
/// them.
pub open spec fn is_subsequence(q: Seq<char>, t: Seq<char>) -> bool
    decreases t.len(),
{
    if q.len() == 0 {
        true
    } else if t.len() == 0 {
        false
    } else {
        (q[0] == t[0] && is_subsequence(q.skip(1), t.skip(1))) || is_subsequence(q, t.skip(1))
    }
}

proof fn lemma_shorter_subsequence(q: Seq<char>, t: Seq<char>)
    requires
        q.len() > 0,
        is_subsequence(q, t),
    ensures
        is_subsequence(q.skip(1), t),
    decreases t.len(),
{
    if q[0] == t[0] && is_subsequence(q.skip(1), t.skip(1)) {
        let r = q.skip(1);
        if r.len() > 0 {
            assert(is_subsequence(r, t.skip(1)));
        }
    } else {
        lemma_shorter_subsequence(q, t.skip(1));
    }
}

proof fn lemma_run_finds_subsequence(
    q: Seq<char>,
    t: Seq<char>,
    ti: int,
    qi: int,
    run: int,
    score: int,
)
    requires
        0 <= ti <= t.len(),
        0 <= qi <= q.len(),
    ensures
        fuzzy_run(q, t, ti, qi, run, score).0 == q.len() <==> is_subsequence(q.skip(qi), t.skip(ti)),
        qi <= fuzzy_run(q, t, ti, qi, run, score).0 <= q.len(),
    decreases t.len() - ti,
{
    let qs = q.skip(qi);
    let ts = t.skip(ti);
    if ti < t.len() && qi < q.len() {
        assert(qs[0] == q[qi] && ts[0] == t[ti]);
        assert(qs.skip(1) =~= q.skip(qi + 1));
        assert(ts.skip(1) =~= t.skip(ti + 1));
        if t[ti] == q[qi] {
            lemma_run_finds_subsequence(q, t, ti + 1, qi + 1, run + 1, score + gain(t, ti, run));
            if is_subsequence(qs, ts.skip(1)) {
                lemma_shorter_subsequence(qs, ts.skip(1));
            }
        } else {
            lemma_run_finds_subsequence(q, t, ti + 1, qi, 0, score);
        }
    }
}

/// A name is found exactly when the characters of the query occur in it in
/// their order, in any case.
pub proof fn law_fuzzy_finds_subsequences(query: Seq<char>, target: Seq<char>)
    ensures
        fuzzy(query, target) is Some <==> is_subsequence(ascii_lower(query), ascii_lower(target)),
{
    let q = ascii_lower(query);
    let t = ascii_lower(target);
    lemma_run_finds_subsequence(q, t, 0, 0, 0, 0);
    assert(q.skip(0) =~= q);
    assert(t.skip(0) =~= t);
}

/// A match is worth more the earlier it stands, by one for each place; five more
/// for each match right before it; and fifteen more at the start of a word.
pub proof fn law_gains(t: Seq<char>, ti: int, run: int)
    requires
        0 < ti < t.len(),
        0 <= run,
    ensures
        gain(t, ti, run + 1) == gain(t, ti, run) + 5,
        gain(t, 0, 0) == 25 + t.len(),
        t[ti - 1] == '-' || t[ti - 1] == '_' || t[ti - 1] == '/' || t[ti - 1] == '.' ==> gain(
            t,
            ti,
            run,
        ) == 25 + 5 * run + (t.len() - ti),
        t[ti - 1] != '-' && t[ti - 1] != '_' && t[ti - 1] != '/' && t[ti - 1] != '.' ==> gain(
            t,
            ti,
            run,
        ) == 10 + 5 * run + (t.len() - ti),
{
}

/// At most ten items are found, the best ones first.
pub proof fn law_ten_best_are_found(
    entries: Seq<IndexEntry>,
    query: Seq<char>,
    filter: Option<ItemType>,
)
    ensures
        fuzzy_found(entries, query, filter).len() <= 10,
        fuzzy_found(entries, query, filter).is_prefix_of(fuzzy_order(entries, query, filter)),
        fuzzy_order(entries, query, filter).len() <= 10 ==> fuzzy_found(entries, query, filter)
            == fuzzy_order(entries, query, filter),
        fuzzy_order(entries, query, filter).len() > 10 ==> fuzzy_found(entries, query, filter).len()
            == 10,
{
}

/// A regular expression finds exactly the items of the type in which it matches
/// the name, the address, the user, the issuer, the account or a tag.
pub proof fn law_regex_finds_all_that_match(
    entries: Seq<IndexEntry>,
    re: regex_lite::Regex,
    filter: Option<ItemType>,
    i: int,
)
    requires
        0 <= i < entries.len() <= usize::MAX,
    ensures
        regex_found(entries, re, filter).contains(i as usize) <==> (filter is None || filter == Some(
            entries[i].item_type,
        )) && {
            let e = entries[i];
            ||| regex_matches(re, e.name@)
            ||| e.metadata.url is Some && regex_matches(re, e.metadata.url->0@)
            ||| e.metadata.username is Some && regex_matches(re, e.metadata.username->0@)
            ||| e.metadata.issuer is Some && regex_matches(re, e.metadata.issuer->0@)
            ||| e.metadata.account is Some && regex_matches(re, e.metadata.account->0@)
            ||| exists|k: int|
                0 <= k < e.metadata.tags@.len() && regex_matches(
                    re,
                    #[trigger] e.metadata.tags@[k]@,
                )
        },
        forall|a: int|
            0 <= a < regex_found(entries, re, filter).len() ==> #[trigger] regex_found(
                entries,
                re,
                filter,
            )[a] < entries.len(),
    decreases entries.len(),
{
    let n = entries.len() - 1;
    let front = entries.drop_last();
    let rest = regex_found(front, re, filter);
    let all = regex_found(entries, re, filter);
    if n > 0 {
        law_regex_finds_all_that_match(
            front,
            re,
            filter,
            if i < n {
                i
            } else {
                0
            },
        );
    }
    if i < n {
        assert(front[i] == entries[i]);
        if rest.contains(i as usize) {
            let k = choose|k: int| 0 <= k < rest.len() && rest[k] == i as usize;
            assert(all[k] == i as usize);
        }
        if all.contains(i as usize) {
            let k = choose|k: int| 0 <= k < all.len() && all[k] == i as usize;
            assert(k < rest.len());
            assert(rest[k] == i as usize);
        }
    } else {
        if entry_matches(re, entries.last()) && is_listed(entries.last(), filter) {
            assert(all.last() == i as usize);
            assert(all.contains(i as usize));
        } else if all.contains(i as usize) {
            let k = choose|k: int| 0 <= k < all.len() && all[k] == i as usize;
            assert(rest[k] < front.len());
        }
    }
}

/// Of the hits of the store, those of the type that was asked for stay, in their
/// order.
pub proof fn law_hits_of_the_type_stay(
    hits: Seq<usize>,
    entries: Seq<IndexEntry>,
    filter: Option<ItemType>,
    x: usize,
)
    ensures
        listed_hits(hits, entries, filter).contains(x) <==> hits.contains(x) && (filter is None
            || filter == Some(entries[x as int].item_type)),
        filter is None ==> listed_hits(hits, entries, filter) == hits,
    decreases hits.len(),
{
    if hits.len() > 0 {
        let front = hits.drop_last();
        law_hits_of_the_type_stay(front, entries, filter, x);
        let rest = listed_hits(front, entries, filter);
        let all = listed_hits(hits, entries, filter);
        if front.contains(x) {
            let k = choose|k: int| 0 <= k < front.len() && front[k] == x;
            assert(hits[k] == x);
        }
        if hits.contains(x) {
            let k = choose|k: int| 0 <= k < hits.len() && hits[k] == x;
            if k < front.len() {
                assert(front[k] == x);
            }
        }
        if rest.contains(x) {
            let k = choose|k: int| 0 <= k < rest.len() && rest[k] == x;
            assert(all[k] == x);
        }
        if all.contains(x) {
            let k = choose|k: int| 0 <= k < all.len() && all[k] == x;
            if k < rest.len() {
                assert(rest[k] == x);
            } else {
                assert(hits[hits.len() - 1] == x);
            }
        }
        if is_listed(entries[hits.last() as int], filter) && hits.last() == x {
            assert(all.last() == x);
            assert(all.contains(x));
        }
        if filter is None {
            assert(all =~= hits);
        }
    } else {
        assert(listed_hits(hits, entries, filter) =~= hits);
    }
}

/// Without a query everything of the type is found; a regular expression is
/// used when it is asked for; otherwise the hits of the store come first, and a
/// fuzzy search only where there are none.
pub proof fn law_searches_come_in_order(
    entries: Seq<IndexEntry>,
    q: Seq<char>,
    filter: Option<ItemType>,
    hits: Seq<usize>,
    regex: bool,
)
    ensures
        found(entries, None, regex, filter, hits) == Ok::<Seq<usize>, CliErrorView>(
            listed(entries, filter),
        ),
        listed_hits(hits, entries, filter).len() > 0 ==> found(entries, Some(q), false, filter, hits)
            == Ok::<Seq<usize>, CliErrorView>(listed_hits(hits, entries, filter)),
        listed_hits(hits, entries, filter).len() == 0 ==> found(
            entries,
            Some(q),
            false,
            filter,
            hits,
        ) == Ok::<Seq<usize>, CliErrorView>(fuzzy_found(entries, q, filter)),
        found(entries, Some(q), true, filter, hits) is Ok <==> regex_of(q, true) is Ok,
{
}

/// The keys of the selector: Enter chooses what is selected, Down goes to the
/// next item and from the last to the first, a typed character extends the query
/// and Backspace takes it off again, and Escape, `q` and Control-C leave.
pub proof fn law_keys(s: SelectorView, entries: Seq<IndexEntry>, c: char, control: bool)
    requires
        selects(s, entries),
    ensures
        s.filtered.len() > 0 ==> pressed(s, entries, Key::Enter).1 == Step::Chosen(
            s.filtered[s.selected],
        ),
        s.filtered.len() == 0 ==> pressed(s, entries, Key::Enter).1 == Step::Continue,
        pressed(s, entries, Key::Enter).0 == s,
        s.filtered.len() > 0 ==> pressed(s, entries, Key::Down).0.selected == if s.selected + 1
            == s.filtered.len() {
            0
        } else {
            s.selected + 1
        },
        pressed(s, entries, Key::Down).0.filtered == s.filtered,
        pressed(s, entries, Key::Esc).1 == Step::Cancelled,
        pressed(s, entries, Key::Char { c, control }).1 == Step::Cancelled <==> c == 'q' || (c
            == 'c' && control),
        c != 'q' && !(c == 'c' && control) ==> pressed(s, entries, Key::Char { c, control }).0.query
            == s.query.push(c) && pressed(
            pressed(s, entries, Key::Char { c, control }).0,
            entries,
            Key::Backspace,
        ).0.query == s.query && pressed(
            pressed(s, entries, Key::Char { c, control }).0,
            entries,
            Key::Backspace,
        ).0.filtered == s.filtered,
{
    assert(s.query.push(c).drop_last() =~= s.query);
}

/// What is read of the value in a contract is the value itself, each part under its
/// own name.
pub proof fn law_selector_views_keep_each_value(x: Selector)
    ensures
        x@.selected == x.selected as int,
        x@.query == x.query@,
        x@.filtered == x.filtered@,
{
}

/// After a change of the query what is selected is among what is left: the same place
/// where there still is one, the last one otherwise.
pub proof fn law_selection_stays_within(s: SelectorView, entries: Seq<IndexEntry>, query: Seq<char>)
    requires
        0 <= s.selected,
    ensures
        ({
            let r = with_query(s, entries, query);
            &&& r.query == query
            &&& r.filtered == left_by(entries, query)
            &&& r.filtered.len() == 0 ==> r.selected == 0
            &&& r.filtered.len() > 0 ==> 0 <= r.selected < r.filtered.len()
            &&& s.selected < r.filtered.len() ==> r.selected == s.selected
            &&& s.selected >= r.filtered.len() && r.filtered.len() > 0 ==> r.selected
                == r.filtered.len() - 1
        }),
{
}

} // verus!
