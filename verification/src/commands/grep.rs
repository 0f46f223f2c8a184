//! `grep`: searching inside the decrypted items.
use vstd::prelude::*;

use crate::commands::secret::{PayloadView, SecretPayload};
use crate::error::{invalid, invalid_args, CliError, CliErrorView};
use crate::json::{compact, json_compact};
use crate::pattern::{build, regex_of, regex_spans, spans};
use crate::text::{
    ascii_lower, byte_len, bytes_in, chars_of, dec, decimal, lemma_shows_last, lemma_shows_more,
    lemma_shows_more4, lines, lines_of, occurs_at, opt_text, shows, stands_at, texts,
    to_ascii_lower, width,
};

verus! {

/// A place where the pattern was found: the item, the field, the line and its
/// number from one, and the byte offsets in the line.
#[derive(Debug)]
pub struct GrepMatch {
    pub name: String,
    pub field: String,
    pub line: String,
    pub line_number: usize,
    pub match_start: u128,
    pub match_end: u128,
}

/// [`GrepMatch`] with its texts as sequences of characters.
pub struct MatchView {
    pub name: Seq<char>,
    pub field: Seq<char>,
    pub line: Seq<char>,
    pub line_number: int,
    pub match_start: int,
    pub match_end: int,
}

impl View for GrepMatch {
    type V = MatchView;

    open spec fn view(&self) -> MatchView {
        MatchView {
            name: self.name@,
            field: self.field@,
            line: self.line@,
            line_number: self.line_number as int,
            match_start: self.match_start as int,
            match_end: self.match_end as int,
        }
    }
}

/// Matches over their views.
pub open spec fn matches_view(v: Seq<GrepMatch>) -> Seq<MatchView> {
    Seq::new(v.len(), |i: int| v[i]@)
}

/// What is searched for: a text in any case, or a regular expression.
#[derive(Debug)]
pub enum Matcher {
    /// The text in lower case.
    Text(String),
    Regex(regex_lite::Regex),
}

/// The byte offsets of a text in a line, both in lower case, for the positions
/// below `n`. Occurrences may overlap.
pub open spec fn text_spans(line: Seq<char>, p: Seq<char>, n: int) -> Seq<(int, int)>
    decreases n,
{
    if n <= 0 {
        Seq::empty()
    } else {
        let rest = text_spans(line, p, n - 1);
        if occurs_at(line, p, n - 1) {
            let start = byte_len(line.take(n - 1));
            rest.push((start, start + byte_len(p)))
        } else {
            rest
        }
    }
}

/// The byte offsets of the matches in a line.
pub open spec fn spans_of(m: Matcher, line: Seq<char>) -> Seq<(int, int)> {
    match m {
        Matcher::Text(p) => text_spans(ascii_lower(line), p@, line.len() as int),
        Matcher::Regex(re) => {
            let s = regex_spans(re, line);
            Seq::new(s.len(), |i: int| (s[i].0 as int, s[i].1 as int))
        },
    }
}

/// The matches of one line.
pub open spec fn line_matches(
    name: Seq<char>,
    field: Seq<char>,
    line: Seq<char>,
    number: int,
    at: Seq<(int, int)>,
) -> Seq<MatchView> {
    Seq::new(
        at.len(),
        |i: int|
            MatchView {
                name,
                field,
                line,
                line_number: number,
                match_start: at[i].0,
                match_end: at[i].1,
            },
    )
}

/// The matches of the lines of a field.
pub open spec fn lines_matches(
    m: Matcher,
    name: Seq<char>,
    field: Seq<char>,
    v: Seq<Seq<char>>,
) -> Seq<MatchView>
    decreases v.len(),
{
    if v.len() == 0 {
        Seq::empty()
    } else {
        lines_matches(m, name, field, v.drop_last()) + line_matches(
            name,
            field,
            v.last(),
            v.len() as int,
            spans_of(m, v.last()),
        )
    }
}

/// The matches of a field.
pub open spec fn field_matches(m: Matcher, name: Seq<char>, field: Seq<char>, value: Seq<char>) -> Seq<
    MatchView,
> {
    lines_matches(m, name, field, lines(value))
}

/// The offsets of a text in a line, in lower case.
fn find_text(line: &Vec<char>, p: &Vec<char>) -> (r: Vec<(u128, u128)>)
    requires
        p@.len() > 0,
    ensures
        pairs(r@) == text_spans(line@, p@, line@.len() as int),
{
    let size: u128 = bytes_in(p);
    let mut out: Vec<(u128, u128)> = Vec::new();
    let mut at: u128 = 0;
    let mut i: usize = 0;
    assert(line@.take(0) =~= Seq::<char>::empty());
    assert(pairs(out@) =~= Seq::<(int, int)>::empty());
    while i < line.len()
        invariant
            i <= line@.len(),
            p@.len() > 0,
            size == byte_len(p@),
            size <= 4 * p@.len(),
            at == byte_len(line@.take(i as int)),
            at <= 4 * i,
            pairs(out@) == text_spans(line@, p@, i as int),
        decreases line@.len() - i,
    {
        if stands_at(line, p, i) {
            let ghost before = out@;
            out.push((at, at + size));
            assert(pairs(out@) =~= pairs(before).push((at as int, (at + size) as int)));
        }
        assert(line@.take(i + 1).drop_last() =~= line@.take(i as int));
        at = at + width(line[i]);
        i = i + 1;
    }
    out
}

/// Pairs of offsets as integers.
pub open spec fn pairs(v: Seq<(u128, u128)>) -> Seq<(int, int)> {
    Seq::new(v.len(), |i: int| (v[i].0 as int, v[i].1 as int))
}

fn find_spans(m: &Matcher, line: &str) -> (r: Vec<(u128, u128)>)
    requires
        m matches Matcher::Text(p) ==> p@.len() > 0,
    ensures
        pairs(r@) == spans_of(*m, line@),
{
    match m {
        Matcher::Text(p) => {
            let l = chars_of(to_ascii_lower(line).as_str());
            let r = find_text(&l, &chars_of(p.as_str()));
            r
        },
        Matcher::Regex(re) => {
            let found = spans(re, line);
            let mut out: Vec<(u128, u128)> = Vec::new();
            let mut i: usize = 0;
            while i < found.len()
                invariant
                    i <= found@.len(),
                    out@.len() == i,
                    forall|k: int|
                        0 <= k < i ==> out@[k].0 == found@[k].0 && out@[k].1 == found@[k].1,
                decreases found@.len() - i,
            {
                let (a, b) = found[i];
                out.push((a as u128, b as u128));
                i = i + 1;
            }
            assert(pairs(out@) =~= spans_of(*m, line@));
            out
        },
    }
}

/// Appends the matches of a field.
pub fn search_field(m: &Matcher, name: &str, field: &str, value: &str, matches: &mut Vec<GrepMatch>)
    requires
        m matches Matcher::Text(p) ==> p@.len() > 0,
    ensures
        matches_view(final(matches)@) == matches_view(old(matches)@) + field_matches(
            *m,
            name@,
            field@,
            value@,
        ),
{
    let v = lines_of(value);
    let count: usize = v.len();
    let ghost all = lines(value@);
    let ghost start = matches_view(matches@);
    let mut i: usize = 0;
    assert(all.take(0) =~= Seq::<Seq<char>>::empty());
    assert(start + lines_matches(*m, name@, field@, all.take(0)) =~= start);
    while i < count
        invariant
            i <= count,
            count == v@.len(),
            texts(v@) == all,
            m matches Matcher::Text(p) ==> p@.len() > 0,
            matches_view(matches@) == start + lines_matches(*m, name@, field@, all.take(i as int)),
        decreases count - i,
    {
        let ghost next = all.take(i + 1);
        assert(next.drop_last() =~= all.take(i as int));
        assert(next.last() == v@[i as int]@);
        let line: &str = v[i].as_str();
        let at = find_spans(m, line);
        let ghost before = matches_view(matches@);
        let ghost new = line_matches(name@, field@, line@, i + 1, spans_of(*m, line@));
        let mut k: usize = 0;
        assert(before + new.take(0) =~= before);
        while k < at.len()
            invariant
                k <= at@.len(),
                i < count,
                pairs(at@) == spans_of(*m, line@),
                new == line_matches(name@, field@, line@, i + 1, spans_of(*m, line@)),
                matches_view(matches@) == before + new.take(k as int),
            decreases at@.len() - k,
        {
            let (a, b) = at[k];
            assert(pairs(at@)[k as int] == (a as int, b as int));
            let ghost so_far = matches@;
            matches.push(
                GrepMatch {
                    name: name.to_owned(),
                    field: field.to_owned(),
                    line: line.to_owned(),
                    line_number: i + 1,
                    match_start: a,
                    match_end: b,
                },
            );
            assert(matches_view(matches@) =~= matches_view(so_far).push(new[k as int]));
            assert(before + new.take(k + 1) =~= (before + new.take(k as int)).push(new[k as int]));
            k = k + 1;
        }
        assert(new.take(k as int) =~= new);
        assert(start + (lines_matches(*m, name@, field@, all.take(i as int)) + new) =~= (start
            + lines_matches(*m, name@, field@, all.take(i as int))) + new);
        i = i + 1;
    }
    assert(all.take(i as int) =~= all);
}

/// The matches of an optional field.
pub open spec fn opt_matches(m: Matcher, name: Seq<char>, field: Seq<char>, value: Option<Seq<char>>) -> Seq<
    MatchView,
> {
    match value {
        Some(v) => field_matches(m, name, field, v),
        None => Seq::empty(),
    }
}

/// The extra data of an item as text.
pub open spec fn extra_line(extra: Option<serde_json::Value>) -> Option<Seq<char>> {
    match extra {
        Some(v) => Some(json_compact(v)),
        None => None,
    }
}

/// The matches of an item: in its secret, its notes, and its extra data.
pub open spec fn payload_matches(m: Matcher, name: Seq<char>, p: PayloadView) -> Seq<MatchView> {
    field_matches(m, name, "secret"@, p.secret) + opt_matches(m, name, "notes"@, p.notes)
        + opt_matches(m, name, "extra"@, extra_line(p.extra))
}

/// An item; its content is there when it could be opened.
#[derive(Debug)]
pub struct GrepEntry {
    pub name: String,
    pub payload: Option<SecretPayload>,
}

/// The matches of items; those that could not be opened have none.
pub open spec fn all_matches(m: Matcher, v: Seq<GrepEntry>) -> Seq<MatchView>
    decreases v.len(),
{
    if v.len() == 0 {
        Seq::empty()
    } else {
        all_matches(m, v.drop_last()) + match v.last().payload {
            Some(p) => payload_matches(m, v.last().name@, p@),
            None => Seq::empty(),
        }
    }
}

/// `m` is what `pattern` searches for.
pub open spec fn is_matcher(m: Matcher, pattern: Seq<char>, regex: bool) -> bool {
    if regex {
        m matches Matcher::Regex(re) && regex_of(pattern, true) == Ok::<
            regex_lite::Regex,
            Seq<char>,
        >(re)
    } else {
        m matches Matcher::Text(p) && p@ == ascii_lower(pattern)
    }
}

/// What a pattern searches for; it may not be empty.
pub fn matcher(pattern: &str, regex: bool) -> (r: Result<Matcher, CliError>)
    ensures
        match r {
            Ok(m) => pattern@.len() > 0 && is_matcher(m, pattern@, regex),
            Err(e) => if pattern@.len() == 0 {
                e@ == CliErrorView::InvalidArgs("pattern must not be empty"@)
            } else {
                regex && match regex_of(pattern@, true) {
                    Ok(_) => false,
                    Err(msg) => e@ == CliErrorView::InvalidArgs("invalid regex: "@ + msg),
                }
            },
        },
{
    if pattern.unicode_len() == 0 {
        return Err(invalid("pattern must not be empty"));
    }
    if !regex {
        return Ok(Matcher::Text(to_ascii_lower(pattern)));
    }
    match build(pattern, true) {
        Ok(re) => Ok(Matcher::Regex(re)),
        Err(e) => Err(invalid_args("invalid regex: ".to_owned().concat(e.as_str()))),
    }
}

/// Searches the items.
pub fn search(m: &Matcher, entries: &Vec<GrepEntry>) -> (r: Vec<GrepMatch>)
    requires
        m matches Matcher::Text(p) ==> p@.len() > 0,
    ensures
        matches_view(r@) == all_matches(*m, entries@),
{
    let mut out: Vec<GrepMatch> = Vec::new();
    let mut i: usize = 0;
    assert(entries@.take(0) =~= Seq::<GrepEntry>::empty());
    assert(matches_view(out@) =~= Seq::<MatchView>::empty());
    while i < entries.len()
        invariant
            i <= entries@.len(),
            m matches Matcher::Text(p) ==> p@.len() > 0,
            matches_view(out@) == all_matches(*m, entries@.take(i as int)),
        decreases entries@.len() - i,
    {
        assert(entries@.take(i + 1).drop_last() =~= entries@.take(i as int));
        let e = &entries[i];
        let ghost before = matches_view(out@);
        if let Some(p) = &e.payload {
            search_field(m, e.name.as_str(), "secret", p.secret.as_str(), &mut out);
            let ghost first = field_matches(*m, e.name@, "secret"@, p.secret@);
            if let Some(notes) = &p.notes {
                search_field(m, e.name.as_str(), "notes", notes.as_str(), &mut out);
            }
            let ghost second = opt_matches(*m, e.name@, "notes"@, opt_text(p.notes));
            assert(matches_view(out@) =~= before + first + second);
            if let Some(extra) = &p.extra {
                search_field(m, e.name.as_str(), "extra", compact(extra).as_str(), &mut out);
            }
            let ghost third = opt_matches(*m, e.name@, "extra"@, extra_line(p.extra));
            assert(matches_view(out@) =~= before + first + second + third);
            assert(before + first + second + third =~= before + (first + second + third));
        } else {
            assert(before + Seq::<MatchView>::empty() =~= before);
        }
        i = i + 1;
    }
    assert(entries@.take(i as int) =~= entries@);
    out
}

/// What a search of the items finds.
pub open spec fn grep_result(r: Result<Vec<GrepMatch>, CliError>) -> Result<
    Seq<MatchView>,
    CliErrorView,
> {
    match r {
        Ok(v) => Ok(matches_view(v@)),
        Err(e) => Err(e@),
    }
}

/// Searches the items for a pattern.
pub fn run(pattern: &str, regex: bool, entries: &Vec<GrepEntry>) -> (r: Result<
    Vec<GrepMatch>,
    CliError,
>)
    ensures
        match grep_result(r) {
            Ok(found) => pattern@.len() > 0 && exists|m: Matcher| #[trigger]
                is_matcher(m, pattern@, regex) && found == all_matches(m, entries@),
            Err(e) => if pattern@.len() == 0 {
                e == CliErrorView::InvalidArgs("pattern must not be empty"@)
            } else {
                regex && match regex_of(pattern@, true) {
                    Ok(_) => false,
                    Err(msg) => e == CliErrorView::InvalidArgs("invalid regex: "@ + msg),
                }
            },
        },
{
    match matcher(pattern, regex) {
        Ok(m) => {
            let found = search(&m, entries);
            assert(is_matcher(m, pattern@, regex));
            Ok(found)
        },
        Err(e) => Err(e),
    }
}

/// A match as a line of text.
pub open spec fn match_line(m: MatchView) -> Seq<char> {
    m.name + ":"@ + m.field + ":L"@ + decimal(m.line_number) + ":C"@ + decimal(m.match_start)
        + "-C"@ + decimal(m.match_end) + ": "@ + m.line + "\n"@
}

/// Matches as lines of text.
pub open spec fn matches_text(v: Seq<MatchView>) -> Seq<char>
    decreases v.len(),
{
    if v.len() == 0 {
        Seq::empty()
    } else {
        matches_text(v.drop_last()) + match_line(v.last())
    }
}

/// The matches as they are printed; nothing when there are none.
pub fn print_matches(v: &Vec<GrepMatch>) -> (r: String)
    ensures
        r@ == matches_text(matches_view(v@)),
{
    let mut out = String::new();
    let ghost all = matches_view(v@);
    let mut i: usize = 0;
    assert(all.take(0) =~= Seq::<MatchView>::empty());
    while i < v.len()
        invariant
            i <= v@.len(),
            all == matches_view(v@),
            out@ == matches_text(all.take(i as int)),
        decreases v@.len() - i,
    {
        assert(all.take(i + 1).drop_last() =~= all.take(i as int));
        let m = &v[i];
        let line = m.name.clone().concat(":").concat(m.field.as_str()).concat(":L").concat(
            dec(m.line_number as u128).as_str(),
        ).concat(":C").concat(dec(m.match_start).as_str()).concat("-C").concat(
            dec(m.match_end).as_str(),
        ).concat(": ").concat(m.line.as_str()).concat("\n");
        out = out.concat(line.as_str());
        i = i + 1;
    }
    assert(all.take(i as int) =~= all);
    out
}

/// Every occurrence of the text is reported: for each position in a line at
/// which it stands there is a match that begins there.
pub proof fn law_every_occurrence_is_found(line: Seq<char>, p: Seq<char>, n: int, i: int)
    requires
        0 <= i < n,
        occurs_at(line, p, i),
    ensures
        exists|k: int|
            0 <= k < text_spans(line, p, n).len() && (#[trigger] text_spans(line, p, n)[k]) == (
                byte_len(line.take(i)),
                byte_len(line.take(i)) + byte_len(p),
            ),
    decreases n,
{
    let last = text_spans(line, p, n).len() - 1;
    let rest = text_spans(line, p, n - 1);
    if i == n - 1 {
        assert(text_spans(line, p, n)[last] == (
            byte_len(line.take(i)),
            byte_len(line.take(i)) + byte_len(p),
        ));
    } else {
        law_every_occurrence_is_found(line, p, n - 1, i);
        let k = choose|k: int|
            0 <= k < rest.len() && (#[trigger] rest[k]) == (
                byte_len(line.take(i)),
                byte_len(line.take(i)) + byte_len(p),
            );
        assert(text_spans(line, p, n)[k] == rest[k]);
    }
}

/// Every span that is found is one of an occurrence.
pub proof fn law_only_occurrences_are_found(line: Seq<char>, p: Seq<char>, n: int, k: int)
    requires
        0 <= k < text_spans(line, p, n).len(),
    ensures
        exists|i: int|
            0 <= i < n && #[trigger] occurs_at(line, p, i) && text_spans(line, p, n)[k] == (
                byte_len(line.take(i)),
                byte_len(line.take(i)) + byte_len(p),
            ),
    decreases n,
{
    if n > 0 {
        let rest = text_spans(line, p, n - 1);
        if k < rest.len() {
            law_only_occurrences_are_found(line, p, n - 1, k);
        } else {
            assert(occurs_at(line, p, n - 1));
        }
    }
}

/// Case does not matter in a search for a text: neither that of the pattern nor
/// that of the line.
pub proof fn law_text_search_ignores_case(m: Matcher, pattern: Seq<char>, line: Seq<char>)
    requires
        m is Text,
    ensures
        is_matcher(m, pattern, false) <==> is_matcher(m, ascii_lower(pattern), false),
        spans_of(m, line) == spans_of(m, ascii_lower(line)),
{
    assert(ascii_lower(ascii_lower(pattern)) =~= ascii_lower(pattern));
    assert(ascii_lower(ascii_lower(line)) =~= ascii_lower(line));
}

proof fn lemma_lines_matches(
    m: Matcher,
    name: Seq<char>,
    field: Seq<char>,
    v: Seq<Seq<char>>,
    k: int,
)
    requires
        0 <= k < lines_matches(m, name, field, v).len(),
    ensures
        ({
            let x = lines_matches(m, name, field, v)[k];
            &&& x.name == name && x.field == field
            &&& 1 <= x.line_number <= v.len()
            &&& x.line == v[x.line_number - 1]
            &&& spans_of(m, x.line).contains((x.match_start, x.match_end))
        }),
    decreases v.len(),
{
    if v.len() > 0 {
        let front = v.drop_last();
        let rest = lines_matches(m, name, field, front);
        if k < rest.len() {
            lemma_lines_matches(m, name, field, front, k);
            let x = rest[k];
            assert(front[x.line_number - 1] == v[x.line_number - 1]);
        } else {
            let at = spans_of(m, v.last());
            let x = lines_matches(m, name, field, v)[k];
            assert(at[k - rest.len()] == (x.match_start, x.match_end));
        }
    }
}

/// A match names its item and its field, and its line by the number that the
/// line has in the field, counted from one.
pub proof fn law_matches_name_their_place(
    m: Matcher,
    name: Seq<char>,
    field: Seq<char>,
    value: Seq<char>,
    k: int,
)
    requires
        0 <= k < field_matches(m, name, field, value).len(),
    ensures
        ({
            let x = field_matches(m, name, field, value)[k];
            &&& x.name == name && x.field == field
            &&& 1 <= x.line_number <= lines(value).len()
            &&& x.line == lines(value)[x.line_number - 1]
            &&& spans_of(m, x.line).contains((x.match_start, x.match_end))
        }),
{
    lemma_lines_matches(m, name, field, lines(value), k);
}

/// The secret, the notes and the extra data are searched, each under its own
/// name.
pub proof fn law_all_fields_are_searched(m: Matcher, name: Seq<char>, p: PayloadView, k: int)
    ensures
        0 <= k < field_matches(m, name, "secret"@, p.secret).len() ==> payload_matches(
            m,
            name,
            p,
        ).contains(field_matches(m, name, "secret"@, p.secret)[k]),
        p.notes matches Some(n) ==> (0 <= k < field_matches(m, name, "notes"@, n).len()
            ==> payload_matches(m, name, p).contains(field_matches(m, name, "notes"@, n)[k])),
        p.extra matches Some(x) ==> (0 <= k < field_matches(
            m,
            name,
            "extra"@,
            json_compact(x),
        ).len() ==> payload_matches(m, name, p).contains(
            field_matches(m, name, "extra"@, json_compact(x))[k],
        )),
{
    let a = field_matches(m, name, "secret"@, p.secret);
    let b = opt_matches(m, name, "notes"@, p.notes);
    let c = opt_matches(m, name, "extra"@, extra_line(p.extra));
    let all = payload_matches(m, name, p);
    assert(all == a + b + c);
    if 0 <= k < a.len() {
        assert(all[k] == a[k]);
    }
    if 0 <= k < b.len() {
        assert(all[a.len() + k] == b[k]);
    }
    if 0 <= k < c.len() {
        assert(all[a.len() + b.len() + k] == c[k]);
    }
}

/// A match is shown with its secret first, and its field, line and columns each
/// behind their own mark.
pub proof fn law_match_lines_show_the_place(m: MatchView, v: Seq<MatchView>)
    ensures
        m.name.is_prefix_of(match_line(m)),
        shows(match_line(m), ":"@, m.field),
        shows(match_line(m), ":L"@, decimal(m.line_number)),
        shows(match_line(m), ":C"@, decimal(m.match_start)),
        shows(match_line(m), "-C"@, decimal(m.match_end)),
        (": "@ + m.line + "\n"@).is_suffix_of(match_line(m)),
        matches_text(v.push(m)) == matches_text(v) + match_line(m),
        matches_text(Seq::<MatchView>::empty()).len() == 0,
{
    assert(v.push(m).drop_last() =~= v);
    let t = match_line(m);
    assert(t.take(m.name.len() as int) =~= m.name);
    assert(shows(t, ":"@, m.field)) by {
        let a = m.name;
        lemma_shows_last(a, ":"@, m.field);
        let u = a + ":"@ + m.field;
        lemma_shows_more4(u, ":L"@, decimal(m.line_number), ":C"@, decimal(m.match_start), ":"@,
            m.field);
        let u = u + ":L"@ + decimal(m.line_number) + ":C"@ + decimal(m.match_start);
        lemma_shows_more4(u, "-C"@, decimal(m.match_end), ": "@, m.line, ":"@, m.field);
        let u = u + "-C"@ + decimal(m.match_end) + ": "@ + m.line;
        lemma_shows_more(u, "\n"@, ":"@, m.field);
    }
    assert(shows(t, ":L"@, decimal(m.line_number))) by {
        let a = m.name + ":"@ + m.field;
        lemma_shows_last(a, ":L"@, decimal(m.line_number));
        let u = a + ":L"@ + decimal(m.line_number);
        lemma_shows_more4(u, ":C"@, decimal(m.match_start), "-C"@, decimal(m.match_end), ":L"@,
            decimal(m.line_number));
        let u = u + ":C"@ + decimal(m.match_start) + "-C"@ + decimal(m.match_end);
        lemma_shows_more(u, ": "@, ":L"@, decimal(m.line_number));
        let u = u + ": "@;
        lemma_shows_more(u, m.line, ":L"@, decimal(m.line_number));
        let u = u + m.line;
        lemma_shows_more(u, "\n"@, ":L"@, decimal(m.line_number));
    }
    assert(shows(t, ":C"@, decimal(m.match_start))) by {
        let a = m.name + ":"@ + m.field + ":L"@ + decimal(m.line_number);
        lemma_shows_last(a, ":C"@, decimal(m.match_start));
        let u = a + ":C"@ + decimal(m.match_start);
        lemma_shows_more4(u, "-C"@, decimal(m.match_end), ": "@, m.line, ":C"@, decimal(m.match_start));
        let u = u + "-C"@ + decimal(m.match_end) + ": "@ + m.line;
        lemma_shows_more(u, "\n"@, ":C"@, decimal(m.match_start));
    }
    assert(shows(t, "-C"@, decimal(m.match_end))) by {
        let a = m.name + ":"@ + m.field + ":L"@ + decimal(m.line_number) + ":C"@
            + decimal(m.match_start);
        lemma_shows_last(a, "-C"@, decimal(m.match_end));
        let u = a + "-C"@ + decimal(m.match_end);
        lemma_shows_more(u, ": "@, "-C"@, decimal(m.match_end));
        let u = u + ": "@;
        lemma_shows_more(u, m.line, "-C"@, decimal(m.match_end));
        let u = u + m.line;
        lemma_shows_more(u, "\n"@, "-C"@, decimal(m.match_end));
    }
    let e = ": "@ + m.line + "\n"@;
    assert(t.subrange(t.len() - e.len(), t.len() as int) =~= e);
}

/// The matches are those of every secret that could be read, and no others.
pub proof fn law_every_secret_is_searched(m: Matcher, v: Seq<GrepEntry>, x: MatchView)
    ensures
        all_matches(m, v).contains(x) <==> exists|i: int|
            0 <= i < v.len() && ((#[trigger] v[i]).payload matches Some(p) && payload_matches(
                m,
                v[i].name@,
                p@,
            ).contains(x)),
    decreases v.len(),
{
    if v.len() > 0 {
        let w = v.drop_last();
        law_every_secret_is_searched(m, w, x);
        let last = match v.last().payload {
            Some(p) => payload_matches(m, v.last().name@, p@),
            None => Seq::empty(),
        };
        let head = all_matches(m, w);
        assert(all_matches(m, v) == head + last);
        if head.contains(x) {
            let k = choose|k: int| 0 <= k < head.len() && head[k] == x;
            assert((head + last)[k] == x);
            let i = choose|i: int|
                0 <= i < w.len() && ((#[trigger] w[i]).payload matches Some(p) && payload_matches(
                    m,
                    w[i].name@,
                    p@,
                ).contains(x));
            assert(v[i] == w[i]);
        }
        if last.contains(x) {
            let k = choose|k: int| 0 <= k < last.len() && last[k] == x;
            assert((head + last)[head.len() + k] == x);
            assert(v[v.len() - 1] == v.last());
        }
        if (head + last).contains(x) {
            let k = choose|k: int| 0 <= k < (head + last).len() && (head + last)[k] == x;
            if k < head.len() {
                assert(head[k] == x);
            } else {
                assert(last[k - head.len()] == x);
            }
        }
        assert forall|i: int|
            0 <= i < v.len() && ((#[trigger] v[i]).payload matches Some(p) && payload_matches(
                m,
                v[i].name@,
                p@,
            ).contains(x)) implies head.contains(x) || last.contains(x) by {
            if i < w.len() {
                assert(w[i] == v[i]);
            }
        }
    }
}

/// What is read of the value in a contract is the value itself, each part under its
/// own name.
pub proof fn law_grep_match_views_keep_each_value(x: GrepMatch)
    ensures
        x@.name == x.name@,
        x@.field == x.field@,
        x@.line == x.line@,
        x@.line_number == x.line_number as int,
        x@.match_start == x.match_start as int,
        x@.match_end == x.match_end as int,
{
}

} // verus!
