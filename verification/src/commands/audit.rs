//! `audit list`: the local audit log, filtered.
//!
//! The log holds one JSON document a line. A malformed line is skipped with a
//! diagnostic; it does not end the listing.
use vstd::prelude::*;

use crate::commands::sbom::at;
use crate::error::{invalid_args, CliError, CliErrorView, IoFault};
use crate::json::{
    compact, fixed, json_compact, json_document, json_fixed, json_string_at, json_uints, member,
    parse, string_at, uint_at,
};
use crate::text::{
    all_digits, ascii_lower, chars_of, clone_opt, debug_quote, debug_text, dec, decimal, digit,
    digits_value, is_digit, is_lower, is_upper, lemma_decimal_is_digits, lower, lower_case,
    opt_text, parse_unsigned, same, same_ignoring_case, text_range, texts, to_lower_case,
    to_upper_case, trim, trimmed, unsigned_digits, upper, upper_case,
};
use crate::time::{earlier, instant_before, parse_timestamp, timestamp_of};

verus! {

// ---------------------------------------------------------------------------
// Durations
// ---------------------------------------------------------------------------

/// A duration in days, hours, minutes and seconds.
#[derive(Clone, Copy, Debug, PartialEq, Eq, Structural)]
pub struct Duration {
    pub days: i64,
    pub hours: i64,
    pub minutes: i64,
    pub seconds: i64,
}

/// A [`Duration`] over integers.
pub struct DurationView {
    pub days: int,
    pub hours: int,
    pub minutes: int,
    pub seconds: int,
}

impl View for Duration {
    type V = DurationView;

    open spec fn view(&self) -> DurationView {
        DurationView {
            days: self.days as int,
            hours: self.hours as int,
            minutes: self.minutes as int,
            seconds: self.seconds as int,
        }
    }
}

impl DurationView {
    /// Every count fits in 64 bits.
    pub open spec fn in_words(self) -> bool {
        self.days <= i64::MAX && self.hours <= i64::MAX && self.minutes <= i64::MAX && self.seconds
            <= i64::MAX
    }

    /// Every count is one that a calendar span can hold.
    pub open spec fn in_span(self) -> bool {
        self.days <= 7_304_484 && self.hours <= 175_307_616 && self.minutes <= 10_518_456_960
            && self.seconds <= 631_107_417_600
    }

    /// Nothing at all.
    pub open spec fn is_zero(self) -> bool {
        self.days == 0 && self.hours == 0 && self.minutes == 0 && self.seconds == 0
    }

    /// The length in seconds, with days of 24 hours.
    pub open spec fn total(self) -> int {
        self.days * 86_400 + self.hours * 3_600 + self.minutes * 60 + self.seconds
    }
}

/// How many digits `s` begins with.
pub open spec fn digit_run(s: Seq<char>) -> int
    decreases s.len(),
{
    if s.len() > 0 && is_digit(s[0]) {
        1 + digit_run(s.skip(1))
    } else {
        0
    }
}

/// How many ASCII letters `s` begins with.
pub open spec fn letter_run(s: Seq<char>) -> int
    decreases s.len(),
{
    if s.len() > 0 && (is_upper(s[0]) || is_lower(s[0])) {
        1 + letter_run(s.skip(1))
    } else {
        0
    }
}

/// What can be wrong with a duration.
pub enum DurationFault {
    NoNumber,
    TooLarge,
    Unit(Seq<char>),
    Zero,
    /// A count does not fit.
    Overflow,
}

/// `d` with `n` of a unit more.
pub open spec fn with_unit(d: DurationView, unit: Seq<char>, n: int) -> Option<DurationView> {
    if unit == "d"@ {
        Some(DurationView { days: d.days + n, ..d })
    } else if unit == "h"@ {
        Some(DurationView { hours: d.hours + n, ..d })
    } else if unit == "m"@ {
        Some(DurationView { minutes: d.minutes + n, ..d })
    } else if unit == "s"@ {
        Some(DurationView { seconds: d.seconds + n, ..d })
    } else {
        None
    }
}

/// The duration that `d` and the rest `s` make: numbers, each with its unit.
pub open spec fn scanned(s: Seq<char>, d: DurationView) -> Result<DurationView, DurationFault>
    decreases s.len(),
{
    let k = digit_run(s);
    let u = letter_run(s.skip(k));
    let n = digits_value(s.take(k));
    let unit = s.skip(k).take(u);
    if s.len() == 0 {
        Ok(d)
    } else if k <= 0 || k > s.len() || u < 0 || u > s.len() - k {
        Err(DurationFault::NoNumber)
    } else if n > i64::MAX {
        Err(DurationFault::TooLarge)
    } else {
        match with_unit(d, unit, n) {
            None => Err(DurationFault::Unit(unit)),
            Some(next) => if next.in_words() {
                scanned(s.skip(k + u), next)
            } else {
                Err(DurationFault::Overflow)
            },
        }
    }
}

/// The duration that `s` writes down; it must not be zero.
pub open spec fn duration_of(s: Seq<char>) -> Result<DurationView, DurationFault> {
    match scanned(s, DurationView { days: 0, hours: 0, minutes: 0, seconds: 0 }) {
        Err(f) => Err(f),
        Ok(d) => if d.is_zero() {
            Err(DurationFault::Zero)
        } else if d.in_span() {
            Ok(d)
        } else {
            Err(DurationFault::Overflow)
        },
    }
}

/// The counts in `s` fit where durations are counted.
pub open spec fn duration_fits(s: Seq<char>) -> bool {
    !(duration_of(s) is Err && duration_of(s)->Err_0 is Overflow)
}

/// The error for a wrong duration.
pub open spec fn duration_error(s: Seq<char>, f: DurationFault) -> CliErrorView {
    CliErrorView::InvalidArgs(
        match f {
            DurationFault::NoNumber => "invalid --since duration: "@ + debug_text(s)
                + " (expected a number followed by a unit)"@,
            DurationFault::TooLarge => "invalid --since duration: "@ + debug_text(s)
                + " (number too large)"@,
            DurationFault::Unit(u) => "invalid --since duration unit: "@ + debug_text(u)
                + " (supported: d, h, m, s)"@,
            DurationFault::Zero => "invalid --since duration: "@ + debug_text(s)
                + " (must be non-zero)"@,
            DurationFault::Overflow => Seq::empty(),
        },
    )
}

proof fn lemma_digit_run(s: Seq<char>)
    ensures
        0 <= digit_run(s) <= s.len(),
        all_digits(s.take(digit_run(s))),
        digit_run(s) < s.len() ==> !is_digit(s[digit_run(s)]),
    decreases s.len(),
{
    if s.len() > 0 && is_digit(s[0]) {
        lemma_digit_run(s.skip(1));
        let k = digit_run(s);
        assert forall|i: int| 0 <= i < k implies is_digit(#[trigger] s.take(k)[i]) by {
            if i > 0 {
                assert(s.skip(1).take(k - 1)[i - 1] == s[i]);
            }
        }
        if k < s.len() {
            assert(s.skip(1)[k - 1] == s[k]);
        }
    }
}

proof fn lemma_letter_run(s: Seq<char>)
    ensures
        0 <= letter_run(s) <= s.len(),
    decreases s.len(),
{
    if s.len() > 0 && (is_upper(s[0]) || is_lower(s[0])) {
        lemma_letter_run(s.skip(1));
    }
}

fn digits_from(v: &Vec<char>, from: usize) -> (r: usize)
    requires
        from <= v@.len(),
    ensures
        from <= r <= v@.len(),
        r == from + digit_run(v@.skip(from as int)),
{
    let mut i: usize = from;
    while i < v.len() && digit(v[i])
        invariant
            from <= i <= v@.len(),
            from + digit_run(v@.skip(from as int)) == i + digit_run(v@.skip(i as int)),
        decreases v@.len() - i,
    {
        assert(v@.skip(i as int).skip(1) =~= v@.skip(i + 1));
        i = i + 1;
    }
    i
}

fn letters_from(v: &Vec<char>, from: usize) -> (r: usize)
    requires
        from <= v@.len(),
    ensures
        from <= r <= v@.len(),
        r == from + letter_run(v@.skip(from as int)),
{
    let mut i: usize = from;
    while i < v.len() && (upper(v[i]) || lower(v[i]))
        invariant
            from <= i <= v@.len(),
            from + letter_run(v@.skip(from as int)) == i + letter_run(v@.skip(i as int)),
        decreases v@.len() - i,
    {
        assert(v@.skip(i as int).skip(1) =~= v@.skip(i + 1));
        i = i + 1;
    }
    i
}

fn add_count(a: i64, n: i64) -> (r: Option<i64>)
    requires
        0 <= a,
        0 <= n,
    ensures
        match r {
            Some(x) => x == a + n,
            None => a + n > i64::MAX,
        },
{
    if n > i64::MAX - a {
        None
    } else {
        Some(a + n)
    }
}

/// The duration that `s` writes down, such as `24h` or `1h30m`; `None` when a
/// count does not fit.
pub fn try_parse_duration(s: &str) -> (r: Option<Result<Duration, CliError>>)
    ensures
        match r {
            None => !duration_fits(s@),
            Some(Ok(d)) => duration_of(s@) == Ok::<DurationView, DurationFault>(d@),
            Some(Err(e)) => duration_fits(s@) && duration_of(s@) is Err && e@ == duration_error(
                s@,
                duration_of(s@)->Err_0,
            ),
        },
{
    let v = chars_of(s);
    let ghost start = DurationView { days: 0, hours: 0, minutes: 0, seconds: 0 };
    let mut d = Duration { days: 0, hours: 0, minutes: 0, seconds: 0 };
    let mut i: usize = 0;
    assert(v@.skip(0) =~= s@);
    while i < v.len()
        invariant
            v@ == s@,
            i <= v@.len(),
            start == (DurationView { days: 0, hours: 0, minutes: 0, seconds: 0 }),
            scanned(s@, start) == scanned(v@.skip(i as int), d@),
            d.days >= 0 && d.hours >= 0 && d.minutes >= 0 && d.seconds >= 0,
        decreases v@.len() - i,
    {
        let ghost rest = v@.skip(i as int);
        let j: usize = digits_from(&v, i);
        proof {
            lemma_digit_run(rest);
            lemma_letter_run(rest.skip(j - i));
            assert(rest.skip(j - i) =~= v@.skip(j as int));
            assert(rest.take(j - i) =~= v@.subrange(i as int, j as int));
        }
        if j == i {
            return Some(
                Err(
                    invalid_args(
                        "invalid --since duration: ".to_owned().concat(
                            debug_quote(s).as_str(),
                        ).concat(" (expected a number followed by a unit)"),
                    ),
                ),
            );
        }
        let num = text_range(&v, i, j);
        let ghost ds = num@;
        proof {
            assert(ds == rest.take(j - i));
            assert(is_digit(ds[0]));
            assert(unsigned_digits(ds) == ds);
        }
        let n: i64 = match parse_unsigned(num.as_str(), i64::MAX as u128) {
            Some(n) => n as i64,
            None => {
                return Some(
                    Err(
                        invalid_args(
                            "invalid --since duration: ".to_owned().concat(
                                debug_quote(s).as_str(),
                            ).concat(" (number too large)"),
                        ),
                    ),
                );
            },
        };
        let k: usize = letters_from(&v, j);
        let unit = text_range(&v, j, k);
        proof {
            assert(unit@ =~= rest.skip(j - i).take(k - j));
            assert(rest.skip(k - i) =~= v@.skip(k as int));
            assert(n == digits_value(rest.take(j - i)));
        }
        let u = unit.as_str();
        if same(u, "d") {
            match add_count(d.days, n) {
                Some(x) => d.days = x,
                None => return None,
            }
        } else if same(u, "h") {
            match add_count(d.hours, n) {
                Some(x) => d.hours = x,
                None => return None,
            }
        } else if same(u, "m") {
            match add_count(d.minutes, n) {
                Some(x) => d.minutes = x,
                None => return None,
            }
        } else if same(u, "s") {
            match add_count(d.seconds, n) {
                Some(x) => d.seconds = x,
                None => return None,
            }
        } else {
            return Some(
                Err(
                    invalid_args(
                        "invalid --since duration unit: ".to_owned().concat(
                            debug_quote(u).as_str(),
                        ).concat(" (supported: d, h, m, s)"),
                    ),
                ),
            );
        }
        i = k;
    }
    assert(v@.skip(i as int).len() == 0);
    if d.days == 0 && d.hours == 0 && d.minutes == 0 && d.seconds == 0 {
        return Some(
            Err(
                invalid_args(
                    "invalid --since duration: ".to_owned().concat(
                        debug_quote(s).as_str(),
                    ).concat(" (must be non-zero)"),
                ),
            ),
        );
    }
    if d.days <= 7_304_484 && d.hours <= 175_307_616 && d.minutes <= 10_518_456_960 && d.seconds
        <= 631_107_417_600 {
        Some(Ok(d))
    } else {
        None
    }
}

/// The duration that `s` writes down, such as `24h` or `1h30m`. The units are
/// `d`, `h`, `m` and `s`; a unit may occur more than once.
pub fn parse_duration(s: &str) -> (r: Result<Duration, CliError>)
    requires
        duration_fits(s@),
    ensures
        match r {
            Ok(d) => duration_of(s@) == Ok::<DurationView, DurationFault>(d@),
            Err(e) => duration_of(s@) is Err && e@ == duration_error(s@, duration_of(s@)->Err_0),
        },
{
    match try_parse_duration(s) {
        Some(r) => r,
        None => Ok(Duration { days: 0, hours: 0, minutes: 0, seconds: 0 }),
    }
}

// ---------------------------------------------------------------------------
// Entries
// ---------------------------------------------------------------------------

/// What is read of an entry of the log.
#[derive(Debug)]
pub struct Record {
    pub device_id: Option<String>,
    pub seq: Option<u64>,
    pub timestamp: Option<String>,
    pub event_type: Option<String>,
    pub session_key_id: Option<String>,
    pub status: Option<String>,
    /// The amount as it is shown.
    pub amount_usd: Option<String>,
    pub deny_reason: Option<String>,
}

/// A [`Record`] with its texts as sequences of characters.
pub struct RecordView {
    pub device_id: Option<Seq<char>>,
    pub seq: Option<u64>,
    pub timestamp: Option<Seq<char>>,
    pub event_type: Option<Seq<char>>,
    pub session_key_id: Option<Seq<char>>,
    pub status: Option<Seq<char>>,
    pub amount_usd: Option<Seq<char>>,
    pub deny_reason: Option<Seq<char>>,
}

impl View for Record {
    type V = RecordView;

    open spec fn view(&self) -> RecordView {
        RecordView {
            device_id: opt_text(self.device_id),
            seq: self.seq,
            timestamp: opt_text(self.timestamp),
            event_type: opt_text(self.event_type),
            session_key_id: opt_text(self.session_key_id),
            status: opt_text(self.status),
            amount_usd: opt_text(self.amount_usd),
            deny_reason: opt_text(self.deny_reason),
        }
    }
}

/// A text, or another where there is none.
pub open spec fn text_or(o: Option<Seq<char>>, other: Seq<char>) -> Seq<char> {
    match o {
        Some(s) => s,
        None => other,
    }
}

fn text_or_else(o: &Option<String>, other: &str) -> (r: String)
    ensures
        r@ == text_or(opt_text(*o), other@),
{
    match o {
        Some(s) => s.clone(),
        None => other.to_owned(),
    }
}

/// The line of an entry; a denied one says why.
pub open spec fn entry_line(r: RecordView) -> Seq<char> {
    let status = upper_case(text_or(r.status, "-"@));
    let seq_no = match r.seq {
        Some(n) => n as int,
        None => 0int,
    };
    "device_id="@ + text_or(r.device_id, ""@) + " seq="@ + decimal(seq_no) + " timestamp="@
        + text_or(r.timestamp, ""@) + " event_type="@ + text_or(r.event_type, ""@)
        + " session_key_id="@ + text_or(r.session_key_id, "-"@) + " status="@ + status
        + " amount_usd="@ + text_or(r.amount_usd, "-"@) + if status == "DENIED"@ {
        " deny_reason="@ + text_or(r.deny_reason, "-"@)
    } else {
        Seq::empty()
    }
}

/// The line of an entry.
pub fn print_entry(r: &Record) -> (out: String)
    ensures
        out@ == entry_line(r@),
{
    let status = to_upper_case(text_or_else(&r.status, "-").as_str());
    let seq_no: u64 = match r.seq {
        Some(n) => n,
        None => 0,
    };
    let line = "device_id=".to_owned().concat(text_or_else(&r.device_id, "").as_str()).concat(
        " seq=",
    ).concat(dec(seq_no as u128).as_str()).concat(" timestamp=").concat(
        text_or_else(&r.timestamp, "").as_str(),
    ).concat(" event_type=").concat(text_or_else(&r.event_type, "").as_str()).concat(
        " session_key_id=",
    ).concat(text_or_else(&r.session_key_id, "-").as_str()).concat(" status=").concat(
        status.as_str(),
    ).concat(" amount_usd=").concat(text_or_else(&r.amount_usd, "-").as_str());
    let tail = if same(status.as_str(), "DENIED") {
        " deny_reason=".to_owned().concat(text_or_else(&r.deny_reason, "-").as_str())
    } else {
        String::new()
    };
    line.concat(tail.as_str())
}

/// What an entry has to be to be listed.
#[derive(Debug)]
pub struct Filters {
    pub agent: Option<String>,
    /// The earliest instant, in nanoseconds since the Unix epoch.
    pub since: Option<i128>,
    /// In lower case.
    pub status: Option<String>,
}

/// [`Filters`] with its texts as sequences of characters.
pub struct FiltersView {
    pub agent: Option<Seq<char>>,
    pub since: Option<i128>,
    pub status: Option<Seq<char>>,
}

impl View for Filters {
    type V = FiltersView;

    open spec fn view(&self) -> FiltersView {
        FiltersView {
            agent: opt_text(self.agent),
            since: self.since,
            status: opt_text(self.status),
        }
    }
}

/// What comes of a line of the log: nothing, a diagnostic, or an entry that is
/// listed.
#[derive(Debug)]
pub enum Listed {
    Skip,
    Diagnostic(String),
    Entry(String),
}

/// A [`Listed`] with its text as a sequence of characters.
pub enum ListedView {
    Skip,
    Diagnostic(Seq<char>),
    Entry(Seq<char>),
}

impl View for Listed {
    type V = ListedView;

    open spec fn view(&self) -> ListedView {
        match *self {
            Listed::Skip => ListedView::Skip,
            Listed::Diagnostic(s) => ListedView::Diagnostic(s@),
            Listed::Entry(s) => ListedView::Entry(s@),
        }
    }
}

/// What comes of an entry whose timestamp is the instant `at`: agent first,
/// then time, then status.
pub open spec fn filtered(
    r: RecordView,
    at: Result<i128, Seq<char>>,
    f: FiltersView,
) -> ListedView {
    if f.agent is Some && text_or(r.device_id, ""@) != f.agent->0 {
        ListedView::Skip
    } else if f.since is Some && at is Err {
        ListedView::Diagnostic(
            "audit list: skipping entry with unparseable timestamp: "@ + text_or(
                r.timestamp,
                ""@,
            ),
        )
    } else if f.since is Some && at->Ok_0 < f.since->0 {
        ListedView::Skip
    } else if f.status is Some && ascii_lower(text_or(r.status, ""@)) != ascii_lower(f.status->0) {
        ListedView::Skip
    } else {
        ListedView::Entry(entry_line(r))
    }
}

/// What comes of an entry whose timestamp is the instant `at`.
pub fn filter_record(r: &Record, at: &Result<i128, String>, f: &Filters) -> (out: Listed)
    ensures
        out@ == filtered(
            r@,
            match *at {
                Ok(n) => Ok(n),
                Err(e) => Err(e@),
            },
            f@,
        ),
{
    match &f.agent {
        Some(a) => if !same(text_or_else(&r.device_id, "").as_str(), a.as_str()) {
            return Listed::Skip;
        },
        None => {},
    }
    match f.since {
        Some(since) => match at {
            Err(_) => {
                return Listed::Diagnostic(
                    "audit list: skipping entry with unparseable timestamp: ".to_owned().concat(
                        text_or_else(&r.timestamp, "").as_str(),
                    ),
                );
            },
            Ok(n) => if *n < since {
                return Listed::Skip;
            },
        },
        None => {},
    }
    match &f.status {
        Some(want) => if !same_ignoring_case(
            text_or_else(&r.status, "").as_str(),
            want.as_str(),
        ) {
            return Listed::Skip;
        },
        None => {},
    }
    Listed::Entry(print_entry(r))
}

/// The unsigned integer at `pointer`, if there is one.
pub open spec fn uint_in(v: serde_json::Value, pointer: Seq<char>) -> Option<u64> {
    if json_uints(v).contains_key(pointer) {
        Some(json_uints(v)[pointer])
    } else {
        None
    }
}

/// An amount as it is shown: a number with two decimals, anything else as its
/// JSON text.
pub open spec fn amount_shown(v: serde_json::Value) -> Seq<char> {
    match json_fixed(v, 2) {
        Some(s) => s,
        None => json_compact(v),
    }
}

/// An amount as it is shown.
pub fn amount_text(v: &serde_json::Value) -> (r: String)
    ensures
        r@ == amount_shown(*v),
{
    match fixed(v, 2) {
        Some(s) => s,
        None => compact(v),
    }
}

/// The amount of an entry: the member `amount_usd` of its payload.
pub open spec fn amount_in(v: serde_json::Value) -> Option<Seq<char>> {
    match at(v, "payload"@) {
        Some(payload) => match at(payload, "amount_usd"@) {
            Some(x) => Some(amount_shown(x)),
            None => None,
        },
        None => None,
    }
}

fn read_amount(v: &serde_json::Value) -> (r: Option<String>)
    ensures
        opt_text(r) == amount_in(*v),
{
    match member(v, "payload") {
        Some(payload) => match member(&payload, "amount_usd") {
            Some(x) => Some(amount_text(&x)),
            None => None,
        },
        None => None,
    }
}

/// What is read of a document.
pub open spec fn record_in(v: serde_json::Value) -> RecordView {
    RecordView {
        device_id: json_string_at(v, "/device_id"@),
        seq: uint_in(v, "/seq"@),
        timestamp: json_string_at(v, "/timestamp"@),
        event_type: json_string_at(v, "/event_type"@),
        session_key_id: json_string_at(v, "/session_key_id"@),
        status: json_string_at(v, "/payload/status"@),
        amount_usd: amount_in(v),
        deny_reason: json_string_at(v, "/payload/deny_reason"@),
    }
}

/// What is read of a document.
pub fn read_record(v: &serde_json::Value) -> (r: Record)
    ensures
        r@ == record_in(*v),
{
    Record {
        device_id: string_at(v, "/device_id"),
        seq: uint_at(v, "/seq"),
        timestamp: string_at(v, "/timestamp"),
        event_type: string_at(v, "/event_type"),
        session_key_id: string_at(v, "/session_key_id"),
        status: string_at(v, "/payload/status"),
        amount_usd: read_amount(v),
        deny_reason: string_at(v, "/payload/deny_reason"),
    }
}

/// What comes of a line of the log.
pub open spec fn line_of(line: Seq<char>, f: FiltersView) -> ListedView {
    if trim(line).len() == 0 {
        ListedView::Skip
    } else {
        match json_document(line) {
            Err(fault) => ListedView::Diagnostic(
                "audit list: skipping malformed line: "@ + fault,
            ),
            Ok(v) => filtered(
                record_in(v),
                timestamp_of(text_or(record_in(v).timestamp, ""@)),
                f,
            ),
        }
    }
}

/// What comes of a line of the log.
pub fn list_line(line: &str, f: &Filters) -> (r: Listed)
    ensures
        r@ == line_of(line@, f@),
{
    if trimmed(line).as_str().is_empty() {
        return Listed::Skip;
    }
    match parse(line) {
        Err(e) => Listed::Diagnostic(
            "audit list: skipping malformed line: ".to_owned().concat(e.as_str()),
        ),
        Ok(v) => {
            let r = read_record(&v);
            let at = parse_timestamp(text_or_else(&r.timestamp, "").as_str());
            filter_record(&r, &at, f)
        },
    }
}

/// What a filter asks for.
pub open spec fn filters_of(
    since: Option<Seq<char>>,
    agent: Option<Seq<char>>,
    status: Option<Seq<char>>,
    now: i128,
) -> Result<FiltersView, CliErrorView> {
    let wanted = match status {
        Some(s) => Some(lower_case(s)),
        None => None,
    };
    match since {
        None => Ok(FiltersView { agent, since: None, status: wanted }),
        Some(s) => match duration_of(s) {
            Err(f) => Err(duration_error(s, f)),
            Ok(d) => match instant_before(now, d.total() as i64) {
                Err(fault) => Err(
                    CliErrorView::InvalidArgs("invalid --since duration: "@ + fault),
                ),
                Ok(at) => Ok(FiltersView { agent, since: Some(at), status: wanted }),
            },
        },
    }
}

/// The length of a duration in seconds.
pub fn total_seconds(d: &Duration) -> (r: i64)
    requires
        d@.in_span(),
        d.days >= 0,
        d.hours >= 0,
        d.minutes >= 0,
        d.seconds >= 0,
    ensures
        r == d@.total(),
{
    d.days * 86_400 + d.hours * 3_600 + d.minutes * 60 + d.seconds
}

/// What the flags of a listing ask for, at the instant `now`. `None` when a
/// count of `--since` does not fit.
pub fn parse_filters(
    since: &Option<String>,
    agent: &Option<String>,
    status: &Option<String>,
    now: i128,
) -> (r: Option<Result<Filters, CliError>>)
    ensures
        match r {
            None => since matches Some(s) && !duration_fits(s@),
            Some(Ok(f)) => (since matches Some(s) ==> duration_fits(s@)) && filters_of(
                opt_text(*since),
                opt_text(*agent),
                opt_text(*status),
                now,
            ) == Ok::<FiltersView, CliErrorView>(f@),
            Some(Err(e)) => (since matches Some(s) ==> duration_fits(s@)) && filters_of(
                opt_text(*since),
                opt_text(*agent),
                opt_text(*status),
                now,
            ) == Err::<FiltersView, CliErrorView>(e@),
        },
{
    let since = match since {
        None => None,
        Some(s) => match try_parse_duration(s.as_str()) {
            None => return None,
            Some(Err(e)) => return Some(Err(e)),
            Some(Ok(d)) => {
                proof {
                    lemma_scanned_grows(
                        s@,
                        DurationView { days: 0, hours: 0, minutes: 0, seconds: 0 },
                    );
                }
                match earlier(now, total_seconds(&d)) {
                    Err(e) => {
                        return Some(
                            Err(
                                invalid_args(
                                    "invalid --since duration: ".to_owned().concat(e.as_str()),
                                ),
                            ),
                        );
                    },
                    Ok(at) => Some(at),
                }
            },
        },
    };
    let status = match status {
        Some(s) => Some(to_lower_case(s.as_str())),
        None => None,
    };
    Some(Ok(Filters { agent: clone_opt(agent), since, status }))
}

proof fn lemma_digits_nonnegative(s: Seq<char>)
    requires
        all_digits(s),
    ensures
        digits_value(s) >= 0,
    decreases s.len(),
{
    if s.len() > 0 {
        assert(is_digit(s[s.len() - 1]));
        assert(all_digits(s.drop_last()));
        lemma_digits_nonnegative(s.drop_last());
    }
}

proof fn lemma_scanned_grows(s: Seq<char>, d: DurationView)
    requires
        d.days >= 0 && d.hours >= 0 && d.minutes >= 0 && d.seconds >= 0,
    ensures
        scanned(s, d) matches Ok(r) ==> r.days >= 0 && r.hours >= 0 && r.minutes >= 0 && r.seconds
            >= 0,
    decreases s.len(),
{
    let k = digit_run(s);
    lemma_digit_run(s);
    lemma_letter_run(s.skip(k));
    lemma_digits_nonnegative(s.take(k));
    let u = letter_run(s.skip(k));
    if s.len() > 0 && k > 0 {
        match with_unit(d, s.skip(k).take(u), digits_value(s.take(k))) {
            Some(next) => lemma_scanned_grows(s.skip(k + u), next),
            None => {},
        }
    }
}

/// What comes of the lines of a log.
pub open spec fn lines_listed(lines: Seq<Seq<char>>, f: FiltersView) -> Seq<ListedView> {
    Seq::new(lines.len(), |i: int| line_of(lines[i], f))
}

/// What comes of the lines of a log, each on its own.
pub fn list(lines: &Vec<String>, f: &Filters) -> (r: Vec<Listed>)
    ensures
        r@.len() == lines@.len(),
        forall|i: int| 0 <= i < r@.len() ==> #[trigger] r@[i]@ == lines_listed(texts(lines@), f@)[i],
{
    let mut out: Vec<Listed> = Vec::new();
    let mut i: usize = 0;
    while i < lines.len()
        invariant
            i <= lines@.len(),
            out@.len() == i,
            forall|k: int|
                0 <= k < out@.len() ==> #[trigger] out@[k]@ == lines_listed(
                    texts(lines@),
                    f@,
                )[k],
        decreases lines@.len() - i,
    {
        out.push(list_line(lines[i].as_str(), f));
        i = i + 1;
    }
    out
}

/// A log that is not there is an empty log; any other failure to open it is an
/// error.
pub fn open_error(kind: IoFault, message: &str) -> (r: Result<(), CliError>)
    ensures
        match r {
            Ok(_) => kind == IoFault::NotFound,
            Err(e) => kind != IoFault::NotFound && e@ == CliErrorView::Io(kind, message@),
        },
{
    match kind {
        IoFault::NotFound => Ok(()),
        _ => Err(CliError::Io(kind, message.to_owned())),
    }
}

/// Where the log is: `OC_AUDIT_LOG` unless it is empty, or the default.
pub fn audit_log_path(configured: &Option<String>, default: &str) -> (r: String)
    ensures
        r@ == match opt_text(*configured) {
            Some(p) => if p.len() > 0 {
                p
            } else {
                default@
            },
            None => default@,
        },
{
    match configured {
        Some(p) => if p.as_str().is_empty() {
            default.to_owned()
        } else {
            p.clone()
        },
        None => default.to_owned(),
    }
}

/// An entry that is listed has passed every filter that was set.
pub proof fn law_listed_entries_pass_the_filters(
    r: RecordView,
    at: Result<i128, Seq<char>>,
    f: FiltersView,
)
    requires
        filtered(r, at, f) is Entry,
    ensures
        f.agent is Some ==> r.device_id == f.agent || (r.device_id is None && f.agent->0 == ""@),
        f.since is Some ==> at is Ok && at->Ok_0 >= f.since->0,
        f.status is Some ==> ascii_lower(text_or(r.status, ""@)) == ascii_lower(f.status->0),
{
}

/// A day is 24 hours, an hour 60 minutes and a minute 60 seconds.
pub proof fn law_units_of_time(d: DurationView, n: int)
    ensures
        (DurationView { days: d.days + n, ..d }).total() == (DurationView {
            hours: d.hours + 24 * n,
            ..d
        }).total(),
        (DurationView { hours: d.hours + n, ..d }).total() == (DurationView {
            minutes: d.minutes + 60 * n,
            ..d
        }).total(),
        (DurationView { minutes: d.minutes + n, ..d }).total() == (DurationView {
            seconds: d.seconds + 60 * n,
            ..d
        }).total(),
        (DurationView { seconds: d.seconds + n, ..d }).total() == d.total() + n,
        (DurationView { days: 0, hours: 0, minutes: 0, seconds: 0 }).total() == 0,
{
}

proof fn lemma_run_of_digits(d: Seq<char>, rest: Seq<char>)
    requires
        all_digits(d),
        rest.len() > 0 ==> !is_digit(rest[0]),
    ensures
        digit_run(d + rest) == d.len(),
    decreases d.len(),
{
    let s = d + rest;
    if d.len() > 0 {
        assert(is_digit(d[0]));
        assert(s[0] == d[0]);
        let t = d.skip(1);
        assert forall|i: int| 0 <= i < t.len() implies is_digit(#[trigger] t[i]) by {
            assert(is_digit(d[i + 1]));
        }
        lemma_run_of_digits(t, rest);
        assert(s.skip(1) =~= t + rest);
    } else {
        assert(s =~= rest);
    }
}

/// A number and a unit add that many of the unit, and what follows them is read
/// on: `d` are days, `h` hours, `m` minutes and `s` seconds.
pub proof fn law_numbers_count_their_unit(n: int, unit: char, d: DurationView)
    requires
        0 <= n <= i64::MAX,
        d.in_words(),
        unit == 'd' || unit == 'h' || unit == 'm' || unit == 's',
        d.days + n <= i64::MAX && d.hours + n <= i64::MAX && d.minutes + n <= i64::MAX && d.seconds
            + n <= i64::MAX,
    ensures
        scanned(decimal(n).push(unit), d) matches Ok(e) && (unit == 'd' ==> e == (DurationView {
            days: d.days + n,
            ..d
        })) && (unit == 'h' ==> e == (DurationView { hours: d.hours + n, ..d })) && (unit == 'm'
            ==> e == (DurationView { minutes: d.minutes + n, ..d })) && (unit == 's' ==> e == (
        DurationView { seconds: d.seconds + n, ..d })),
{
    let digits = decimal(n);
    let s = digits.push(unit);
    lemma_decimal_is_digits(n);
    lemma_run_of_digits(digits, seq![unit]);
    assert(s =~= digits + seq![unit]);
    let k = digits.len() as int;
    assert(s.take(k) =~= digits);
    assert(s.skip(k) =~= seq![unit]);
    let tail = seq![unit];
    assert(tail.skip(1) =~= Seq::<char>::empty());
    assert(letter_run(Seq::<char>::empty()) == 0);
    assert(letter_run(tail) == 1);
    assert(tail.take(1) =~= tail);
    reveal_strlit("d");
    reveal_strlit("h");
    reveal_strlit("m");
    reveal_strlit("s");
    assert("d"@ =~= seq!['d'] && "h"@ =~= seq!['h'] && "m"@ =~= seq!['m'] && "s"@ =~= seq!['s']);
    assert("d"@[0] == 'd' && "h"@[0] == 'h' && "m"@[0] == 'm' && "s"@[0] == 's');
    assert(tail[0] == unit);
    assert(s.skip(k + 1) =~= Seq::<char>::empty());
    let next = with_unit(d, tail, n)->0;
    assert(scanned(Seq::<char>::empty(), next) == Ok::<DurationView, DurationFault>(next));
}

/// A plain duration is that many units: `7d` asks for seven days, whose seconds
/// are 7 times 86400.
pub proof fn law_plain_durations(n: int)
    requires
        0 < n <= 7_304_484,
    ensures
        duration_of(decimal(n).push('d')) matches Ok(d) && d.total() == n * 86_400,
        duration_of(decimal(n).push('h')) matches Ok(d) && d.total() == n * 3_600,
        duration_of(decimal(n).push('m')) matches Ok(d) && d.total() == n * 60,
        duration_of(decimal(n).push('s')) matches Ok(d) && d.total() == n,
        duration_of(decimal(0).push('d')) == Err::<DurationView, DurationFault>(
            DurationFault::Zero,
        ),
{
    let zero = DurationView { days: 0, hours: 0, minutes: 0, seconds: 0 };
    law_numbers_count_their_unit(n, 'd', zero);
    law_numbers_count_their_unit(n, 'h', zero);
    law_numbers_count_their_unit(n, 'm', zero);
    law_numbers_count_their_unit(n, 's', zero);
    law_numbers_count_their_unit(0, 'd', zero);
}

/// An entry is listed whenever it passes all filters that are set: the agent is
/// the device, the instant is not before the earliest one, and the status is the
/// same in any case.
pub proof fn law_entries_that_pass_are_listed(
    r: RecordView,
    at: Result<i128, Seq<char>>,
    f: FiltersView,
)
    requires
        f.agent is Some ==> r.device_id == f.agent,
        f.since is Some ==> at is Ok && at->Ok_0 >= f.since->0,
        f.status is Some ==> r.status is Some && ascii_lower(r.status->0) == ascii_lower(
            f.status->0,
        ),
    ensures
        filtered(r, at, f) is Entry,
{
}

/// A line shows what the record says under each name; a reason is shown only of
/// what was denied.
pub proof fn law_reasons_are_shown_of_denials(a: RecordView, b: RecordView)
    requires
        a == (RecordView { deny_reason: a.deny_reason, ..b }),
    ensures
        a.status is None || upper_case(a.status->0) != "DENIED"@ ==> upper_case("-"@) != "DENIED"@
            ==> entry_line(a) == entry_line(b),
        a.status is Some && upper_case(a.status->0) == "DENIED"@ && a.deny_reason is Some ==> (
        " deny_reason="@ + a.deny_reason->0).is_suffix_of(entry_line(a)),
{
    if a.status is Some && upper_case(a.status->0) == "DENIED"@ && a.deny_reason is Some {
        let tail = " deny_reason="@ + a.deny_reason->0;
        let all = entry_line(a);
        assert(all.subrange(all.len() - tail.len(), all.len() as int) =~= tail);
    }
}

/// A record reads each value where the log keeps it.
pub proof fn law_records_read_their_places(v: serde_json::Value)
    ensures
        record_in(v).device_id == json_string_at(v, "/device_id"@),
        record_in(v).timestamp == json_string_at(v, "/timestamp"@),
        record_in(v).event_type == json_string_at(v, "/event_type"@),
        record_in(v).session_key_id == json_string_at(v, "/session_key_id"@),
        record_in(v).status == json_string_at(v, "/payload/status"@),
        record_in(v).deny_reason == json_string_at(v, "/payload/deny_reason"@),
        json_uints(v).contains_key("/seq"@) ==> record_in(v).seq == Some(json_uints(v)["/seq"@]),
        !json_uints(v).contains_key("/seq"@) ==> record_in(v).seq is None,
        (at(v, "payload"@) matches Some(p) && (at(p, "amount_usd"@) matches Some(x) && json_fixed(
            x,
            2,
        ) is Some)) ==> record_in(v).amount_usd == json_fixed(
            at(at(v, "payload"@)->0, "amount_usd"@)->0,
            2,
        ),
{
}

/// The filters are what was asked for: the agent as it is, the status in lower
/// case, and the instant that lies the whole duration before now.
pub proof fn law_filters_are_what_was_asked_for(
    since: Option<Seq<char>>,
    agent: Option<Seq<char>>,
    status: Option<Seq<char>>,
    now: i128,
)
    ensures
        filters_of(since, agent, status, now) matches Ok(f) ==> {
            &&& f.agent == agent
            &&& status is None <==> f.status is None
            &&& status matches Some(s) ==> f.status == Some(lower_case(s))
            &&& since is None <==> f.since is None
            &&& since matches Some(s) ==> (duration_of(s) matches Ok(d) && instant_before(
                now,
                d.total() as i64,
            ) == Ok::<i128, Seq<char>>(f.since->0))
        },
        since is None ==> filters_of(since, agent, status, now) is Ok,
{
}

/// A blank line is passed over, a line that is no JSON is reported, and any
/// other is judged by the filters on the record that it holds.
pub proof fn law_lines_are_judged_by_their_record(line: Seq<char>, f: FiltersView)
    ensures
        trim(line).len() == 0 ==> line_of(line, f) is Skip,
        trim(line).len() > 0 && json_document(line) is Err ==> line_of(line, f) is Diagnostic,
        line_of(line, f) is Entry ==> (json_document(line) matches Ok(v) && line_of(line, f)
            == ListedView::Entry(entry_line(record_in(v)))),
{
}

/// What is read of the value in a contract is the value itself, each part under its
/// own name.
pub proof fn law_duration_views_keep_each_value(x: Duration)
    ensures
        x@.days == x.days as int,
        x@.hours == x.hours as int,
        x@.minutes == x.minutes as int,
        x@.seconds == x.seconds as int,
{
}

/// What is read of the value in a contract is the value itself, each part under its
/// own name.
pub proof fn law_record_views_keep_each_value(x: Record)
    ensures
        x@.device_id == opt_text(x.device_id),
        x@.seq == x.seq,
        x@.timestamp == opt_text(x.timestamp),
        x@.event_type == opt_text(x.event_type),
        x@.session_key_id == opt_text(x.session_key_id),
        x@.status == opt_text(x.status),
        x@.amount_usd == opt_text(x.amount_usd),
        x@.deny_reason == opt_text(x.deny_reason),
{
}

/// What is read of the value in a contract is the value itself, each part under its
/// own name.
pub proof fn law_filters_views_keep_each_value(x: Filters)
    ensures
        x@.agent == opt_text(x.agent),
        x@.since == x.since,
        x@.status == opt_text(x.status),
{
}

/// What is read of the value in a contract is the value itself, each part under its
/// own name.
pub proof fn law_listed_views_keep_each_value(x: Listed)
    ensures
        x is Skip ==> x@ == ListedView::Skip,
        x matches Listed::Diagnostic(s) ==> x@ == ListedView::Diagnostic(s@),
        x matches Listed::Entry(s) ==> x@ == ListedView::Entry(s@),
{
}

/// A duration has a limit for each of its units, and is within its limits exactly when
/// none of them is passed.
pub proof fn law_durations_have_limits(d: DurationView)
    ensures
        d.in_span() <==> !(d.days > 7_304_484) && !(d.hours > 175_307_616) && !(d.minutes
            > 60 * 175_307_616) && !(d.seconds > 3600 * 175_307_616),
{
}

} // verus!
