//! `fsck`: the integrity check of the secret store, and its repair.
//!
//! Directory and file permissions, the index, orphan files and phantom index
//! entries, the recipients file, the age identity, and optionally the
//! decryption of every secret. What was observed on disk comes in as a
//! [`FsckProbe`]; what is reported, and what a repair removes, is decided here.
use vstd::prelude::*;

use crate::error::{invalid_args, CliError, CliErrorView};
use crate::order::{is_stable_order, sorted, stable_order, stable_order_of};
use crate::seqs::lemma_filter_member;
use crate::text::{
    dec, decimal, digit_char, is_among, lemma_shows, occurs_at, replace, replace_from, replaced,
    shows, texts, without_suffix, zero_pad, zero_padded,
};

verus! {

/// The mode that directories of the store must have.
pub const DIR_MODE: u32 = 0o700;

/// The mode that files of the store must have.
pub const FILE_MODE: u32 = 0o600;

/// How a check ended.
#[derive(Clone, Copy, Debug, PartialEq, Eq, Structural)]
pub enum Status {
    Pass,
    Warn,
    Fail,
    Fixed,
}

/// The tag of a status.
pub open spec fn status_tag(s: Status) -> Seq<char> {
    match s {
        Status::Pass => "[OK]"@,
        Status::Warn => "[WARN]"@,
        Status::Fail => "[FAIL]"@,
        Status::Fixed => "[FIXED]"@,
    }
}

impl Status {
    /// The tag of the status.
    pub fn tag(&self) -> (r: &'static str)
        ensures
            r@ == status_tag(*self),
    {
        match self {
            Status::Pass => "[OK]",
            Status::Warn => "[WARN]",
            Status::Fail => "[FAIL]",
            Status::Fixed => "[FIXED]",
        }
    }
}

/// One line of the report: plain text, or the finding of a check.
#[derive(Debug)]
pub enum Entry {
    Note(String),
    Finding(Status, String),
}

/// An [`Entry`] with its text as a sequence of characters.
pub enum EntryView {
    Note(Seq<char>),
    Finding(Status, Seq<char>),
}

impl View for Entry {
    type V = EntryView;

    open spec fn view(&self) -> EntryView {
        match *self {
            Entry::Note(s) => EntryView::Note(s@),
            Entry::Finding(k, s) => EntryView::Finding(k, s@),
        }
    }
}

impl EntryView {
    /// The line as it is shown.
    pub open spec fn line(self) -> Seq<char> {
        match self {
            EntryView::Note(s) => s,
            EntryView::Finding(k, s) => "  "@ + status_tag(k) + " "@ + s,
        }
    }
}

impl Entry {
    /// The line as it is shown.
    pub fn line(&self) -> (r: String)
        ensures
            r@ == self@.line(),
    {
        match self {
            Entry::Note(s) => s.clone(),
            Entry::Finding(k, s) => "  ".to_owned().concat(k.tag()).concat(" ").concat(s.as_str()),
        }
    }
}

/// The views of a sequence of entries.
pub open spec fn entries_view(v: Seq<Entry>) -> Seq<EntryView> {
    Seq::new(v.len(), |i: int| v[i]@)
}

/// How many findings have the status `k`.
pub open spec fn count_of(v: Seq<EntryView>, k: Status) -> int
    decreases v.len(),
{
    if v.len() == 0 {
        0
    } else {
        count_of(v.drop_last(), k) + if v.last() matches EntryView::Finding(s, _) && s == k {
            1int
        } else {
            0int
        }
    }
}

/// Findings that are counted as warnings: passed checks and warnings.
pub open spec fn warnings_in(v: Seq<EntryView>) -> int {
    count_of(v, Status::Pass) + count_of(v, Status::Warn)
}

fn count_status(v: &Vec<Entry>, k: Status) -> (n: usize)
    ensures
        n == count_of(entries_view(v@), k),
        n <= v@.len(),
{
    let mut n: usize = 0;
    let mut i: usize = 0;
    let ghost all = entries_view(v@);
    while i < v.len()
        invariant
            i <= v@.len(),
            n <= i,
            all == entries_view(v@),
            n == count_of(all.take(i as int), k),
        decreases v@.len() - i,
    {
        assert(all.take(i + 1).drop_last() =~= all.take(i as int));
        match &v[i] {
            Entry::Finding(s, _) => {
                if *s == k {
                    n = n + 1;
                }
            },
            Entry::Note(_) => {},
        }
        i = i + 1;
    }
    assert(all.take(i as int) =~= all);
    n
}

fn note(log: &mut Vec<Entry>, text: String)
    ensures
        entries_view(final(log)@) == entries_view(old(log)@).push(EntryView::Note(text@)),
{
    let ghost before = log@;
    log.push(Entry::Note(text));
    assert(entries_view(log@) =~= entries_view(before).push(EntryView::Note(text@)));
}

fn report(log: &mut Vec<Entry>, status: Status, text: String)
    ensures
        entries_view(final(log)@) == entries_view(old(log)@).push(
            EntryView::Finding(status, text@),
        ),
{
    let ghost before = log@;
    log.push(Entry::Finding(status, text));
    assert(entries_view(log@) =~= entries_view(before).push(EntryView::Finding(status, text@)));
}

fn enter(log: &mut Vec<Entry>, e: Entry)
    ensures
        entries_view(final(log)@) == entries_view(old(log)@).push(e@),
{
    let ghost before = log@;
    log.push(e);
    assert(entries_view(log@) =~= entries_view(before).push(e@));
}

// ---------------------------------------------------------------------------
// Permissions
// ---------------------------------------------------------------------------

/// `n` in octal.
pub open spec fn octal(n: int) -> Seq<char>
    decreases n,
{
    if n < 8 {
        seq![digit_char(n)]
    } else {
        octal(n / 8).push(digit_char(n % 8))
    }
}

/// A file mode, in at least four octal digits.
pub open spec fn mode_text(mode: u32) -> Seq<char> {
    zero_padded(octal(mode as int), 4)
}

fn octal_of(n: u32) -> (r: String)
    ensures
        r@ == octal(n as int),
    decreases n,
{
    let d = ((48 + n % 8) as u8) as char;
    let mut s = if n < 8 {
        String::new()
    } else {
        octal_of(n / 8)
    };
    let ghost before = s@;
    s.push(d);
    assert(n < 8 ==> s@ =~= seq![d]);
    s
}

fn show_mode(mode: u32) -> (r: String)
    ensures
        r@ == mode_text(mode),
{
    zero_pad(octal_of(mode).as_str(), 4)
}

/// What a look at a path gave: nothing there, no metadata, its mode bits, or a
/// system without mode bits.
#[derive(Debug)]
pub enum PathState {
    Missing,
    Unreadable(String),
    Mode(u32),
    Unsupported,
}

/// A path, what a look at it gave, and what came of setting its mode where
/// that was asked for.
#[derive(Debug)]
pub struct PathProbe {
    pub path: String,
    pub state: PathState,
    pub chmod: Result<(), String>,
}

/// The permission bits of a mode.
pub open spec fn permission_bits(mode: u32) -> u32 {
    mode & 0o777
}

/// A repair sets the mode of the path.
pub open spec fn wants_chmod(state: PathState, expected: u32, fix: bool) -> bool {
    fix && (state matches PathState::Mode(m) && permission_bits(m) != expected)
}

/// Whether a repair sets the mode of the path.
pub fn needs_chmod(state: &PathState, expected: u32, fix: bool) -> (r: bool)
    ensures
        r == wants_chmod(*state, expected, fix),
{
    match state {
        PathState::Mode(m) => fix && (*m & 0o777) != expected,
        _ => false,
    }
}

/// The finding on a mode that is not the expected one.
pub open spec fn wrong_mode(msg: Seq<char>, fix: bool, chmod: Result<(), String>) -> EntryView {
    if fix {
        match chmod {
            Ok(_) => EntryView::Finding(Status::Fixed, msg + " — fixed"@),
            Err(e) => EntryView::Finding(Status::Fail, msg + " — fix failed: "@ + e@),
        }
    } else {
        EntryView::Finding(Status::Fail, msg)
    }
}

fn wrong_mode_entry(msg: String, fix: bool, chmod: &Result<(), String>) -> (e: Entry)
    ensures
        e@ == wrong_mode(msg@, fix, *chmod),
{
    if fix {
        match chmod {
            Ok(_) => Entry::Finding(Status::Fixed, msg.concat(" — fixed")),
            Err(e) => Entry::Finding(
                Status::Fail,
                msg.concat(" — fix failed: ").concat(e.as_str()),
            ),
        }
    } else {
        Entry::Finding(Status::Fail, msg)
    }
}

/// The finding on a directory.
pub open spec fn dir_finding(
    probe: PathProbe,
    expected: u32,
    label: Seq<char>,
    fix: bool,
) -> EntryView {
    match probe.state {
        PathState::Missing => EntryView::Finding(
            Status::Warn,
            label + " does not exist: "@ + probe.path@,
        ),
        PathState::Unreadable(e) => EntryView::Finding(
            Status::Fail,
            "cannot stat "@ + label + ": "@ + e@,
        ),
        PathState::Mode(m) => if permission_bits(m) == expected {
            EntryView::Finding(Status::Pass, label + " permissions "@ + mode_text(expected))
        } else {
            wrong_mode(
                label + " has mode "@ + mode_text(permission_bits(m)) + " (expected "@ + mode_text(
                    expected,
                ) + "): "@ + probe.path@,
                fix,
                probe.chmod,
            )
        },
        PathState::Unsupported => EntryView::Finding(
            Status::Pass,
            label + " permissions (skipped, non-unix)"@,
        ),
    }
}

/// The finding on a file.
pub open spec fn file_finding(
    probe: PathProbe,
    expected: u32,
    label: Seq<char>,
    fix: bool,
) -> EntryView {
    match probe.state {
        PathState::Unreadable(e) => EntryView::Finding(
            Status::Fail,
            "cannot stat "@ + label + ": "@ + e@,
        ),
        PathState::Mode(m) => if permission_bits(m) == expected {
            EntryView::Finding(Status::Pass, label + " permissions "@ + mode_text(expected))
        } else {
            wrong_mode(
                label + " has mode "@ + mode_text(permission_bits(m)) + " (expected "@ + mode_text(
                    expected,
                ) + ")"@,
                fix,
                probe.chmod,
            )
        },
        _ => EntryView::Finding(Status::Pass, label + " permissions (skipped, non-unix)"@),
    }
}

/// Checks the mode of a directory; under `fix` a wrong mode has been set, with
/// the outcome in the probe.
pub fn check_dir_permissions(probe: &PathProbe, expected: u32, label: &str, fix: bool) -> (e: Entry)
    ensures
        e@ == dir_finding(*probe, expected, label@, fix),
{
    match &probe.state {
        PathState::Missing => Entry::Finding(
            Status::Warn,
            label.to_owned().concat(" does not exist: ").concat(probe.path.as_str()),
        ),
        PathState::Unreadable(err) => Entry::Finding(
            Status::Fail,
            "cannot stat ".to_owned().concat(label).concat(": ").concat(err.as_str()),
        ),
        PathState::Mode(m) => {
            let mode: u32 = *m & 0o777;
            if mode == expected {
                Entry::Finding(
                    Status::Pass,
                    label.to_owned().concat(" permissions ").concat(show_mode(expected).as_str()),
                )
            } else {
                let msg = label.to_owned().concat(" has mode ").concat(
                    show_mode(mode).as_str(),
                ).concat(" (expected ").concat(show_mode(expected).as_str()).concat("): ").concat(
                    probe.path.as_str(),
                );
                wrong_mode_entry(msg, fix, &probe.chmod)
            }
        },
        PathState::Unsupported => Entry::Finding(
            Status::Pass,
            label.to_owned().concat(" permissions (skipped, non-unix)"),
        ),
    }
}

/// Checks the mode of a file that was listed; under `fix` a wrong mode has
/// been set, with the outcome in the probe.
pub fn check_file_permissions(probe: &PathProbe, expected: u32, label: &str, fix: bool) -> (e:
    Entry)
    requires
        !(probe.state is Missing),
    ensures
        e@ == file_finding(*probe, expected, label@, fix),
{
    match &probe.state {
        PathState::Unreadable(err) => Entry::Finding(
            Status::Fail,
            "cannot stat ".to_owned().concat(label).concat(": ").concat(err.as_str()),
        ),
        PathState::Mode(m) => {
            let mode: u32 = *m & 0o777;
            if mode == expected {
                Entry::Finding(
                    Status::Pass,
                    label.to_owned().concat(" permissions ").concat(show_mode(expected).as_str()),
                )
            } else {
                let msg = label.to_owned().concat(" has mode ").concat(
                    show_mode(mode).as_str(),
                ).concat(" (expected ").concat(show_mode(expected).as_str()).concat(")");
                wrong_mode_entry(msg, fix, &probe.chmod)
            }
        },
        _ => Entry::Finding(
            Status::Pass,
            label.to_owned().concat(" permissions (skipped, non-unix)"),
        ),
    }
}

// ---------------------------------------------------------------------------
// File names
// ---------------------------------------------------------------------------

/// The secret name that a file stem stands for: `%2F` is `/`, and then `%25`
/// is `%`.
pub open spec fn decoded_name(stem: Seq<char>) -> Seq<char> {
    replace(replace(stem, "%2F"@, "/"@), "%25"@, "%"@)
}

/// The secret name that a file stem stands for.
pub fn filename_to_name(stem: &str) -> (r: String)
    ensures
        r@ == decoded_name(stem@),
{
    proof {
        reveal_strlit("%2F");
        reveal_strlit("%25");
    }
    let slashes = replaced(stem, "%2F", "/");
    replaced(slashes.as_str(), "%25", "%")
}

/// A character of a secret name as it stands in a file stem.
pub open spec fn encoded_char(c: char) -> Seq<char> {
    if c == '%' {
        seq!['%', '2', '5']
    } else if c == '/' {
        seq!['%', '2', 'F']
    } else {
        seq![c]
    }
}

/// The file stem of a secret name: `%` is escaped, and so is `/`.
pub open spec fn encoded_name(name: Seq<char>) -> Seq<char>
    decreases name.len(),
{
    if name.len() == 0 {
        Seq::empty()
    } else {
        encoded_char(name[0]) + encoded_name(name.skip(1))
    }
}

/// The encoding after its slashes have been put back.
spec fn half_decoded(name: Seq<char>) -> Seq<char>
    decreases name.len(),
{
    if name.len() == 0 {
        Seq::empty()
    } else {
        (if name[0] == '%' {
            seq!['%', '2', '5']
        } else {
            seq![name[0]]
        }) + half_decoded(name.skip(1))
    }
}

proof fn lemma_replace_shift(s: Seq<char>, p: Seq<char>, r: Seq<char>, k: int, i: int)
    requires
        0 <= k <= i <= s.len(),
    ensures
        replace_from(s, p, r, i) == replace_from(s.skip(k), p, r, i - k),
    decreases s.len() - i,
{
    let t = s.skip(k);
    if i < s.len() && p.len() > 0 {
        assert(occurs_at(s, p, i) == occurs_at(t, p, i - k)) by {
            if i + p.len() <= s.len() {
                assert(s.subrange(i, i + p.len()) =~= t.subrange(i - k, i - k + p.len()));
            }
        }
        if occurs_at(s, p, i) {
            lemma_replace_shift(s, p, r, k, i + p.len());
        } else {
            lemma_replace_shift(s, p, r, k, i + 1);
        }
    }
}

/// A character other than the first one of the pattern is copied.
proof fn lemma_replace_copies(s: Seq<char>, p: Seq<char>, r: Seq<char>)
    requires
        s.len() > 0,
        p.len() > 0,
        !occurs_at(s, p, 0),
    ensures
        replace(s, p, r) == seq![s[0]] + replace(s.skip(1), p, r),
{
    lemma_replace_shift(s, p, r, 1, 1);
}

/// A pattern at the front is replaced.
proof fn lemma_replace_front(s: Seq<char>, p: Seq<char>, r: Seq<char>)
    requires
        p.len() > 0,
        occurs_at(s, p, 0),
    ensures
        replace(s, p, r) == r + replace(s.skip(p.len() as int), p, r),
{
    lemma_replace_shift(s, p, r, p.len() as int, p.len() as int);
}

proof fn lemma_slashes_decode(name: Seq<char>)
    ensures
        replace(encoded_name(name), "%2F"@, "/"@) == half_decoded(name),
    decreases name.len(),
{
    reveal_strlit("%2F");
    reveal_strlit("/");
    let p = "%2F"@;
    let r = "/"@;
    let s = encoded_name(name);
    assert(p =~= seq!['%', '2', 'F']);
    assert(r =~= seq!['/']);
    if name.len() > 0 {
        let rest = encoded_name(name.skip(1));
        lemma_slashes_decode(name.skip(1));
        if name[0] == '/' {
            assert(s.subrange(0, 3) =~= p);
            assert(s.skip(3) =~= rest);
            lemma_replace_front(s, p, r);
            assert(replace(s, p, r) =~= half_decoded(name));
        } else if name[0] == '%' {
            assert(s[0] == '%' && s[1] == '2' && s[2] == '5');
            assert(!occurs_at(s, p, 0)) by {
                if occurs_at(s, p, 0) {
                    assert(s.subrange(0, 3)[2] == p[2]);
                }
            }
            lemma_replace_copies(s, p, r);
            let s1 = s.skip(1);
            assert(s1[0] == '2');
            assert(!occurs_at(s1, p, 0)) by {
                if occurs_at(s1, p, 0) {
                    assert(s1.subrange(0, 3)[0] == p[0]);
                }
            }
            lemma_replace_copies(s1, p, r);
            let s2 = s1.skip(1);
            assert(s2[0] == '5');
            assert(!occurs_at(s2, p, 0)) by {
                if occurs_at(s2, p, 0) {
                    assert(s2.subrange(0, 3)[0] == p[0]);
                }
            }
            lemma_replace_copies(s2, p, r);
            assert(s2.skip(1) =~= rest);
            assert(replace(s, p, r) =~= half_decoded(name));
        } else {
            assert(s[0] == name[0]);
            assert(!occurs_at(s, p, 0)) by {
                if occurs_at(s, p, 0) {
                    assert(s.subrange(0, 3)[0] == p[0]);
                }
            }
            lemma_replace_copies(s, p, r);
            assert(s.skip(1) =~= rest);
            assert(replace(s, p, r) =~= half_decoded(name));
        }
    }
}

proof fn lemma_percents_decode(name: Seq<char>)
    ensures
        replace(half_decoded(name), "%25"@, "%"@) == name,
    decreases name.len(),
{
    reveal_strlit("%25");
    reveal_strlit("%");
    let p = "%25"@;
    let r = "%"@;
    let s = half_decoded(name);
    assert(p =~= seq!['%', '2', '5']);
    assert(r =~= seq!['%']);
    if name.len() > 0 {
        let rest = half_decoded(name.skip(1));
        lemma_percents_decode(name.skip(1));
        if name[0] == '%' {
            assert(s.subrange(0, 3) =~= p);
            assert(s.skip(3) =~= rest);
            lemma_replace_front(s, p, r);
            assert(replace(s, p, r) =~= name);
        } else {
            assert(s[0] == name[0]);
            assert(!occurs_at(s, p, 0)) by {
                if occurs_at(s, p, 0) {
                    assert(s.subrange(0, 3)[0] == p[0]);
                }
            }
            lemma_replace_copies(s, p, r);
            assert(s.skip(1) =~= rest);
            assert(replace(s, p, r) =~= name);
        }
    } else {
        assert(replace(s, p, r) =~= name);
    }
}

/// Decoding the file stem of a secret name gives the name back.
pub proof fn law_file_names_round_trip(name: Seq<char>)
    ensures
        decoded_name(encoded_name(name)) == name,
{
    lemma_slashes_decode(name);
    lemma_percents_decode(name);
}

// ---------------------------------------------------------------------------
// The index against the files
// ---------------------------------------------------------------------------

/// A file name with the extension `age`.
pub open spec fn is_age_name(file: Seq<char>) -> bool {
    ".age"@.is_suffix_of(file) && file != ".age"@
}

/// Whether a file name has the extension `age`.
pub fn is_age_file(file: &str) -> (r: bool)
    ensures
        r == is_age_name(file@),
{
    crate::text::ends_with(file, ".age") && !crate::text::same(file, ".age")
}

/// The names among `files` with the extension `age`.
pub open spec fn age_names(files: Seq<Seq<char>>) -> Seq<Seq<char>>
    decreases files.len(),
{
    if files.len() == 0 {
        Seq::empty()
    } else if is_age_name(files.last()) {
        age_names(files.drop_last()).push(files.last())
    } else {
        age_names(files.drop_last())
    }
}

/// The `.age` files among the entries of a directory, in order.
pub fn collect_age_files(files: &Vec<String>) -> (r: Vec<String>)
    ensures
        texts(r@) == sorted(age_names(texts(files@))),
{
    let mut found: Vec<String> = Vec::new();
    let mut i: usize = 0;
    let ghost all = texts(files@);
    while i < files.len()
        invariant
            i <= files@.len(),
            all == texts(files@),
            texts(found@) == age_names(all.take(i as int)),
        decreases files@.len() - i,
    {
        assert(all.take(i + 1).drop_last() =~= all.take(i as int));
        if is_age_file(files[i].as_str()) {
            let ghost before = found@;
            found.push(files[i].clone());
            assert(texts(found@) =~= texts(before).push(all[i as int]));
        }
        i = i + 1;
    }
    assert(all.take(i as int) =~= all);
    let order = stable_order(&found);
    let mut out: Vec<String> = Vec::new();
    let mut k: usize = 0;
    while k < order.len()
        invariant
            k <= order@.len(),
            order@ == stable_order_of(texts(found@)),
            is_stable_order(texts(found@), order@),
            texts(out@) =~= sorted(texts(found@)).take(k as int),
        decreases order@.len() - k,
    {
        let ghost before = out@;
        out.push(found[order[k]].clone());
        assert(texts(out@) =~= texts(before).push(sorted(texts(found@))[k as int]));
        k = k + 1;
    }
    assert(sorted(texts(found@)).take(k as int) =~= sorted(texts(found@)));
    out
}

/// The secret names of the `.age` files among `files`.
pub open spec fn secret_names(files: Seq<Seq<char>>) -> Seq<Seq<char>>
    decreases files.len(),
{
    if files.len() == 0 {
        Seq::empty()
    } else {
        let rest = secret_names(files.drop_last());
        match secret_of(files.last()) {
            Some(n) => rest.push(n),
            None => rest,
        }
    }
}

/// The secret that a file holds, if it is an `.age` file.
pub open spec fn secret_of(file: Seq<char>) -> Option<Seq<char>> {
    if is_age_name(file) {
        Some(decoded_name(file.take(file.len() - 4)))
    } else {
        None
    }
}

fn secret_name(file: &str) -> (r: Option<String>)
    ensures
        crate::text::opt_text(r) == secret_of(file@),
{
    proof {
        reveal_strlit(".age");
    }
    if is_age_file(file) {
        match without_suffix(file, ".age") {
            Some(stem) => Some(filename_to_name(stem.as_str())),
            None => None,
        }
    } else {
        None
    }
}

/// The secret names of the `.age` files among `files`, in the order of the
/// files.
pub fn file_secret_names(files: &Vec<String>) -> (r: Vec<String>)
    ensures
        texts(r@) == secret_names(texts(files@)),
{
    let mut out: Vec<String> = Vec::new();
    let mut i: usize = 0;
    let ghost all = texts(files@);
    while i < files.len()
        invariant
            i <= files@.len(),
            all == texts(files@),
            texts(out@) == secret_names(all.take(i as int)),
        decreases files@.len() - i,
    {
        assert(all.take(i + 1).drop_last() =~= all.take(i as int));
        let ghost before = out@;
        match secret_name(files[i].as_str()) {
            Some(n) => {
                out.push(n);
                assert(texts(out@) =~= texts(before).push(n@));
            },
            None => {},
        }
        i = i + 1;
    }
    assert(all.take(i as int) =~= all);
    out
}

/// The names in the index lines that parse, in file order.
pub open spec fn valid_names(lines: Seq<Option<String>>) -> Seq<Seq<char>>
    decreases lines.len(),
{
    if lines.len() == 0 {
        Seq::empty()
    } else {
        let rest = valid_names(lines.drop_last());
        match lines.last() {
            Some(n) => rest.push(n@),
            None => rest,
        }
    }
}

/// Where the index lines that parse stand.
pub open spec fn valid_positions(lines: Seq<Option<String>>) -> Seq<int>
    decreases lines.len(),
{
    if lines.len() == 0 {
        Seq::empty()
    } else {
        let rest = valid_positions(lines.drop_last());
        match lines.last() {
            Some(_) => rest.push(lines.len() - 1),
            None => rest,
        }
    }
}

/// An entry of the index: the secret's name, and the line it stands on among
/// the lines that are not blank.
#[derive(Debug)]
pub struct IndexEntry {
    pub name: String,
    pub line: usize,
}

/// The names of index entries.
pub open spec fn entry_names(v: Seq<IndexEntry>) -> Seq<Seq<char>> {
    Seq::new(v.len(), |i: int| v[i].name@)
}

/// The lines of the index that are not blank, trimmed.
pub open spec fn index_lines(content: Seq<Seq<char>>) -> Seq<Seq<char>>
    decreases content.len(),
{
    if content.len() == 0 {
        Seq::empty()
    } else {
        let rest = index_lines(content.drop_last());
        let last = crate::text::trim(content.last());
        if last.len() == 0 {
            rest
        } else {
            rest.push(last)
        }
    }
}

/// The lines of an index file that have to parse.
pub fn split_index(content: &str) -> (r: Vec<String>)
    ensures
        texts(r@) == index_lines(crate::text::lines(content@)),
{
    let raw = crate::text::lines_of(content);
    let mut out: Vec<String> = Vec::new();
    let mut i: usize = 0;
    let ghost all = texts(raw@);
    while i < raw.len()
        invariant
            i <= raw@.len(),
            all == texts(raw@),
            texts(out@) == index_lines(all.take(i as int)),
        decreases raw@.len() - i,
    {
        assert(all.take(i + 1).drop_last() =~= all.take(i as int));
        let line = crate::text::trimmed(raw[i].as_str());
        if !line.as_str().is_empty() {
            let ghost before = out@;
            out.push(line);
            assert(texts(out@) =~= texts(before).push(line@));
        }
        i = i + 1;
    }
    assert(all.take(i as int) =~= all);
    out
}

/// The entries of the index in the order of their names, and how many lines do
/// not parse. `lines` holds, for each line that is not blank, the name of the
/// entry that it parses to.
pub fn parse_index(lines: &Vec<Option<String>>) -> (r: (Vec<IndexEntry>, usize))
    ensures
        entry_names(r.0@) == sorted(valid_names(lines@)),
        forall|i: int|
            0 <= i < r.0@.len() ==> (#[trigger] r.0@[i]).line == valid_positions(
                lines@,
            )[stable_order_of(valid_names(lines@))[i] as int],
        r.1 == lines@.len() - valid_names(lines@).len(),
{
    let mut names: Vec<String> = Vec::new();
    let mut places: Vec<usize> = Vec::new();
    let mut bad: usize = 0;
    let mut i: usize = 0;
    while i < lines.len()
        invariant
            i <= lines@.len(),
            texts(names@) == valid_names(lines@.take(i as int)),
            places@.len() == names@.len(),
            places@.len() == valid_positions(lines@.take(i as int)).len(),
            forall|k: int|
                0 <= k < places@.len() ==> #[trigger] places@[k] == valid_positions(
                    lines@.take(i as int),
                )[k],
            bad == i - names@.len(),
        decreases lines@.len() - i,
    {
        assert(lines@.take(i + 1).drop_last() =~= lines@.take(i as int));
        match &lines[i] {
            Some(n) => {
                let ghost before = names@;
                names.push(n.clone());
                assert(texts(names@) =~= texts(before).push(n@));
                places.push(i);
            },
            None => {
                bad = bad + 1;
            },
        }
        i = i + 1;
    }
    assert(lines@.take(i as int) =~= lines@);
    let order = stable_order(&names);
    let mut out: Vec<IndexEntry> = Vec::new();
    let mut k: usize = 0;
    while k < order.len()
        invariant
            k <= order@.len(),
            order@ == stable_order_of(texts(names@)),
            is_stable_order(texts(names@), order@),
            places@.len() == names@.len(),
            texts(names@) == valid_names(lines@),
            forall|j: int|
                0 <= j < places@.len() ==> #[trigger] places@[j] == valid_positions(lines@)[j],
            entry_names(out@) =~= sorted(texts(names@)).take(k as int),
            forall|j: int|
                0 <= j < out@.len() ==> (#[trigger] out@[j]).line == valid_positions(
                    lines@,
                )[order@[j] as int],
        decreases order@.len() - k,
    {
        let ghost before = out@;
        let at: usize = order[k];
        out.push(IndexEntry { name: names[at].clone(), line: places[at] });
        assert(entry_names(out@) =~= entry_names(before).push(sorted(texts(names@))[k as int]));
        k = k + 1;
    }
    assert(sorted(texts(names@)).take(k as int) =~= sorted(texts(names@)));
    (out, bad)
}

/// An `.age` file, what a look at it gave, and what came of removing it where
/// that was asked for.
#[derive(Debug)]
pub struct AgeFile {
    pub file: String,
    pub probe: PathProbe,
    pub removed: Result<(), String>,
}

/// The names of `.age` files.
pub open spec fn age_file_names(v: Seq<AgeFile>) -> Seq<Seq<char>> {
    Seq::new(v.len(), |i: int| v[i].file@)
}

/// The file holds a secret that is not in the index.
pub open spec fn is_orphan(file: Seq<char>, index: Seq<Seq<char>>) -> bool {
    secret_of(file) matches Some(n) && !index.contains(n)
}

/// Whether a file holds a secret that is not in the index.
pub fn orphaned(file: &str, index: &Vec<String>) -> (r: bool)
    ensures
        r == is_orphan(file@, texts(index@)),
{
    match secret_name(file) {
        Some(n) => !is_among(n.as_str(), index),
        None => false,
    }
}

/// Index names that have a file.
pub open spec fn kept_names(index: Seq<Seq<char>>, files: Seq<Seq<char>>) -> Seq<Seq<char>> {
    index.filter(|n: Seq<char>| secret_names(files).contains(n))
}

/// Files that are not orphans.
pub open spec fn kept_files(index: Seq<Seq<char>>, files: Seq<Seq<char>>) -> Seq<Seq<char>> {
    files.filter(|f: Seq<char>| !is_orphan(f, index))
}

proof fn lemma_secret_names_contains(files: Seq<Seq<char>>, n: Seq<char>)
    ensures
        secret_names(files).contains(n) <==> exists|i: int|
            0 <= i < files.len() && secret_of(#[trigger] files[i]) == Some(n),
    decreases files.len(),
{
    if files.len() > 0 {
        let front = files.drop_last();
        lemma_secret_names_contains(front, n);
        let rest = secret_names(front);
        if secret_names(files).contains(n) {
            let k = choose|k: int| 0 <= k < secret_names(files).len() && secret_names(files)[k] == n;
            if k < rest.len() {
                assert(rest[k] == n);
                let i = choose|i: int|
                    0 <= i < front.len() && secret_of(#[trigger] front[i]) == Some(n);
                assert(secret_of(files[i]) == Some(n));
            } else {
                assert(secret_of(files[files.len() - 1]) == Some(n));
            }
        }
        if exists|i: int| 0 <= i < files.len() && secret_of(#[trigger] files[i]) == Some(n) {
            let i = choose|i: int| 0 <= i < files.len() && secret_of(#[trigger] files[i]) == Some(
                n,
            );
            if i < front.len() {
                assert(secret_of(front[i]) == Some(n));
                let k = choose|k: int| 0 <= k < rest.len() && rest[k] == n;
                assert(secret_names(files)[k] == n);
            } else {
                assert(secret_names(files)[rest.len() as int] == n);
            }
        }
    }
}

/// After a repair, which removes the orphan files and the phantom entries, the
/// index and the files name the same secrets.
pub proof fn law_repair_makes_index_and_files_agree(
    index: Seq<Seq<char>>,
    files: Seq<Seq<char>>,
    n: Seq<char>,
)
    ensures
        kept_names(index, files).contains(n) <==> secret_names(kept_files(index, files)).contains(
            n,
        ),
{
    let keep = |f: Seq<char>| !is_orphan(f, index);
    let wanted = |m: Seq<char>| secret_names(files).contains(m);
    let left = files.filter(keep);
    lemma_secret_names_contains(files, n);
    lemma_secret_names_contains(left, n);
    lemma_filter_member(index, wanted, n);
    if kept_names(index, files).contains(n) {
        let i = choose|i: int| 0 <= i < files.len() && secret_of(#[trigger] files[i]) == Some(n);
        lemma_filter_member(files, keep, files[i]);
        let j = choose|j: int| 0 <= j < left.len() && left[j] == files[i];
        assert(secret_of(left[j]) == Some(n));
    }
    if secret_names(left).contains(n) {
        let j = choose|j: int| 0 <= j < left.len() && secret_of(#[trigger] left[j]) == Some(n);
        lemma_filter_member(files, keep, left[j]);
        let i = choose|i: int| 0 <= i < files.len() && files[i] == left[j];
        assert(secret_of(files[i]) == Some(n));
    }
}

// ---------------------------------------------------------------------------
// The whole check
// ---------------------------------------------------------------------------

/// What was found of the recipients file.
#[derive(Debug)]
pub enum RecipientsState {
    Missing,
    Bad(String),
    Loaded(usize),
}

/// What was found of the age identity file.
#[derive(Debug)]
pub enum IdentityState {
    Missing,
    Unreadable(String),
    Bad(String),
    Valid,
}

/// What came of loading and decrypting one secret.
#[derive(Debug)]
pub enum DecryptState {
    Decrypted,
    Failed(String),
    Unloadable(String),
}

/// What was observed of the store. The outcomes of repairs and of decryptions
/// count only where the check asks for them.
#[derive(Debug)]
pub struct FsckProbe {
    pub store_root: String,
    pub home: PathProbe,
    pub store: PathProbe,
    pub secrets: PathProbe,
    /// The `.age` files, in order.
    pub age_files: Vec<AgeFile>,
    /// For each index line that is not blank, the name it parses to.
    pub index: Vec<Option<String>>,
    /// The index file, if there is one.
    pub index_file: Option<PathProbe>,
    pub recipients: RecipientsState,
    pub identity: IdentityState,
    pub store_open: Result<(), String>,
    /// For each valid index entry, in the order of their names.
    pub decrypts: Vec<DecryptState>,
    pub rewrite: Result<(), String>,
}

impl FsckProbe {
    /// Files that were listed have a state, and there is an outcome for each
    /// valid index entry.
    pub open spec fn wf(self) -> bool {
        &&& forall|i: int|
            0 <= i < self.age_files@.len() ==> !((#[trigger] self.age_files@[i]).probe.state is Missing)
        &&& self.index_file matches Some(p) ==> !(p.state is Missing)
        &&& self.decrypts@.len() == valid_names(self.index@).len()
    }

    /// The names in the index, in order.
    pub open spec fn index_names(self) -> Seq<Seq<char>> {
        sorted(valid_names(self.index@))
    }

    /// The names of the `.age` files.
    pub open spec fn files(self) -> Seq<Seq<char>> {
        age_file_names(self.age_files@)
    }
}

/// The findings on the modes of the `.age` files.
pub open spec fn age_mode_entries(files: Seq<AgeFile>, fix: bool) -> Seq<EntryView>
    decreases files.len(),
{
    if files.len() == 0 {
        Seq::empty()
    } else {
        age_mode_entries(files.drop_last(), fix).push(
            file_finding(
                files.last().probe,
                FILE_MODE,
                "age file "@ + files.last().probe.path@,
                fix,
            ),
        )
    }
}

/// The finding on the lines of the index.
pub open spec fn index_entry(lines: Seq<Option<String>>) -> EntryView {
    let bad = lines.len() - valid_names(lines).len();
    if bad > 0 {
        EntryView::Finding(
            Status::Fail,
            "index.jsonl has "@ + decimal(bad) + " unparseable line(s)"@,
        )
    } else {
        EntryView::Finding(
            Status::Pass,
            "index.jsonl has "@ + decimal(valid_names(lines).len() as int) + " valid entries"@,
        )
    }
}

/// The findings on the mode of the index file, if there is one.
pub open spec fn index_mode_entries(index_file: Option<PathProbe>, fix: bool) -> Seq<EntryView> {
    match index_file {
        Some(p) => seq![file_finding(p, FILE_MODE, "index.jsonl"@, fix)],
        None => Seq::empty(),
    }
}

/// The findings on files without an index entry.
pub open spec fn orphan_entries(files: Seq<AgeFile>, index: Seq<Seq<char>>) -> Seq<EntryView>
    decreases files.len(),
{
    if files.len() == 0 {
        Seq::empty()
    } else {
        let rest = orphan_entries(files.drop_last(), index);
        if is_orphan(files.last().file@, index) {
            rest.push(
                EntryView::Finding(
                    Status::Warn,
                    "orphan .age file: "@ + files.last().probe.path@ + " (name: '"@ + secret_of(
                        files.last().file@,
                    )->0 + "')"@,
                ),
            )
        } else {
            rest
        }
    }
}

/// The findings on index entries without a file.
pub open spec fn phantom_entries(index: Seq<Seq<char>>, files: Seq<Seq<char>>) -> Seq<EntryView>
    decreases index.len(),
{
    if index.len() == 0 {
        Seq::empty()
    } else {
        let rest = phantom_entries(index.drop_last(), files);
        if !secret_names(files).contains(index.last()) {
            rest.push(
                EntryView::Finding(
                    Status::Warn,
                    "phantom index entry: '"@ + index.last() + "' (no .age file)"@,
                ),
            )
        } else {
            rest
        }
    }
}

/// How many index entries have no file.
pub open spec fn phantom_count(index: Seq<Seq<char>>, files: Seq<Seq<char>>) -> int {
    phantom_entries(index, files).len() as int
}

/// The finding on the recipients file.
pub open spec fn recipients_entry(r: RecipientsState) -> EntryView {
    match r {
        RecipientsState::Missing => EntryView::Finding(
            Status::Warn,
            "recipients file not found"@,
        ),
        RecipientsState::Bad(e) => EntryView::Finding(
            Status::Fail,
            "recipients file parse error: "@ + e@,
        ),
        RecipientsState::Loaded(n) => EntryView::Finding(
            Status::Pass,
            "recipients file valid ("@ + decimal(n as int) + " recipient(s))"@,
        ),
    }
}

/// The finding on the age identity.
pub open spec fn identity_entry(s: IdentityState) -> EntryView {
    match s {
        IdentityState::Missing => EntryView::Finding(
            Status::Warn,
            "age identity file not found"@,
        ),
        IdentityState::Unreadable(e) => EntryView::Finding(
            Status::Fail,
            "cannot read age identity: "@ + e@,
        ),
        IdentityState::Bad(e) => EntryView::Finding(
            Status::Fail,
            "age identity parse error: "@ + e@,
        ),
        IdentityState::Valid => EntryView::Finding(Status::Pass, "age identity is valid"@),
    }
}

/// Everything that is reported before decryption and repair.
pub open spec fn scan_entries(p: FsckProbe, fix: bool) -> Seq<EntryView> {
    seq![
        EntryView::Note("onecipher fsck — checking secret store at "@ + p.store_root@),
        EntryView::Note(""@),
        dir_finding(p.home, DIR_MODE, "onecipher home"@, fix),
        dir_finding(p.store, DIR_MODE, "store root"@, fix),
        dir_finding(p.secrets, DIR_MODE, "secrets dir"@, fix),
    ] + age_mode_entries(p.age_files@, fix) + seq![index_entry(p.index@)] + index_mode_entries(
        p.index_file,
        fix,
    ) + orphan_entries(p.age_files@, p.index_names()) + phantom_entries(p.index_names(), p.files())
        + seq![recipients_entry(p.recipients), identity_entry(p.identity)]
}

/// The findings on the decryption of the indexed secrets that have a file.
pub open spec fn decrypt_entries(
    index: Seq<Seq<char>>,
    files: Seq<Seq<char>>,
    outcomes: Seq<DecryptState>,
) -> Seq<EntryView>
    decreases index.len(),
{
    if index.len() == 0 {
        Seq::empty()
    } else {
        let rest = decrypt_entries(index.drop_last(), files, outcomes);
        let name = index.last();
        if !secret_names(files).contains(name) {
            rest
        } else {
            rest.push(
                match outcomes[index.len() - 1] {
                    DecryptState::Decrypted => EntryView::Finding(
                        Status::Pass,
                        "decrypt ok: '"@ + name + "'"@,
                    ),
                    DecryptState::Failed(e) => EntryView::Finding(
                        Status::Fail,
                        "decrypt failed: '"@ + name + "' — "@ + e@,
                    ),
                    DecryptState::Unloadable(e) => EntryView::Finding(
                        Status::Fail,
                        "cannot load '"@ + name + "': "@ + e@,
                    ),
                },
            )
        }
    }
}

/// The store is opened to decrypt everything.
pub open spec fn decrypts_all(p: FsckProbe, decrypt: bool) -> bool {
    decrypt && p.identity is Valid
}

/// The check stops because the store cannot be opened for decryption.
pub open spec fn stops_at_open(p: FsckProbe, decrypt: bool) -> bool {
    decrypts_all(p, decrypt) && p.store_open is Err
}

/// What is reported on decryption.
pub open spec fn decrypt_phase(p: FsckProbe, decrypt: bool) -> Seq<EntryView> {
    if !decrypt {
        Seq::empty()
    } else if p.identity is Valid {
        let head = seq![
            EntryView::Note(""@),
            EntryView::Note("decrypt validation (this may take a while)..."@),
        ];
        if p.store_open is Err {
            head
        } else {
            head + decrypt_entries(p.index_names(), p.files(), p.decrypts@)
        }
    } else {
        seq![
            EntryView::Finding(
                Status::Warn,
                "skipping decrypt validation (no valid age identity)"@,
            ),
        ]
    }
}

/// The findings on the removal of orphan files.
pub open spec fn removal_entries(files: Seq<AgeFile>, index: Seq<Seq<char>>) -> Seq<EntryView>
    decreases files.len(),
{
    if files.len() == 0 {
        Seq::empty()
    } else {
        let rest = removal_entries(files.drop_last(), index);
        let f = files.last();
        if is_orphan(f.file@, index) {
            rest.push(
                match f.removed {
                    Ok(_) => EntryView::Finding(
                        Status::Fixed,
                        "removed orphan file: "@ + f.probe.path@,
                    ),
                    Err(e) => EntryView::Finding(
                        Status::Fail,
                        "failed to remove "@ + f.probe.path@ + ": "@ + e@,
                    ),
                },
            )
        } else {
            rest
        }
    }
}

/// What is reported on the repair.
pub open spec fn fix_phase(p: FsckProbe, fix: bool) -> Seq<EntryView> {
    if !fix {
        Seq::empty()
    } else {
        let gone = phantom_count(p.index_names(), p.files());
        seq![EntryView::Note(""@), EntryView::Note("applying fixes..."@)] + removal_entries(
            p.age_files@,
            p.index_names(),
        ) + if gone > 0 {
            seq![
                match p.rewrite {
                    Ok(_) => EntryView::Finding(
                        Status::Fixed,
                        "rewrote index.jsonl (removed "@ + decimal(gone)
                            + " phantom entry/entries)"@,
                    ),
                    Err(e) => EntryView::Finding(
                        Status::Fail,
                        "failed to rewrite index.jsonl: "@ + e@,
                    ),
                },
            ]
        } else {
            Seq::empty()
        }
    }
}

/// The summary of a finished check.
pub open spec fn summary_entries(found: Seq<EntryView>, fix: bool) -> Seq<EntryView> {
    let errors = count_of(found, Status::Fail);
    let warnings = warnings_in(found);
    let fixed = count_of(found, Status::Fixed);
    if errors == 0 && warnings == 0 && fixed == 0 {
        seq![EntryView::Note(""@), EntryView::Note("fsck complete: no issues found"@)]
    } else {
        seq![
            EntryView::Note(""@),
            EntryView::Note(
                "fsck complete: "@ + decimal(errors) + " error(s), "@ + decimal(warnings)
                    + " warning(s)"@ + if fix {
                    ", "@ + decimal(fixed) + " fixed"@
                } else {
                    Seq::empty()
                },
            ),
        ] + if errors > 0 && !fix {
            seq![EntryView::Note("hint: run with --fix to automatically repair issues"@)]
        } else {
            Seq::empty()
        }
    }
}

/// Everything that is found.
pub open spec fn found_entries(p: FsckProbe, fix: bool, decrypt: bool) -> Seq<EntryView> {
    scan_entries(p, fix) + decrypt_phase(p, decrypt) + fix_phase(p, fix)
}

fn add_age_modes(log: &mut Vec<Entry>, files: &Vec<AgeFile>, fix: bool)
    requires
        forall|i: int|
            0 <= i < files@.len() ==> !((#[trigger] files@[i]).probe.state is Missing),
    ensures
        entries_view(final(log)@) == entries_view(old(log)@) + age_mode_entries(files@, fix),
{
    let ghost start = entries_view(log@);
    let mut i: usize = 0;
    assert(start + age_mode_entries(files@.take(0), fix) =~= start);
    while i < files.len()
        invariant
            i <= files@.len(),
            forall|k: int|
                0 <= k < files@.len() ==> !((#[trigger] files@[k]).probe.state is Missing),
            entries_view(log@) == start + age_mode_entries(files@.take(i as int), fix),
        decreases files@.len() - i,
    {
        let f = &files[i];
        let label = "age file ".to_owned().concat(f.probe.path.as_str());
        assert(files@.take(i + 1).drop_last() =~= files@.take(i as int));
        enter(log, check_file_permissions(&f.probe, FILE_MODE, label.as_str(), fix));
        assert(entries_view(log@) =~= start + age_mode_entries(files@.take(i + 1), fix));
        i = i + 1;
    }
    assert(files@.take(i as int) =~= files@);
}

fn add_orphans(log: &mut Vec<Entry>, files: &Vec<AgeFile>, index: &Vec<String>)
    ensures
        entries_view(final(log)@) == entries_view(old(log)@) + orphan_entries(
            files@,
            texts(index@),
        ),
{
    let ghost start = entries_view(log@);
    let mut i: usize = 0;
    assert(start + orphan_entries(files@.take(0), texts(index@)) =~= start);
    while i < files.len()
        invariant
            i <= files@.len(),
            entries_view(log@) == start + orphan_entries(files@.take(i as int), texts(index@)),
        decreases files@.len() - i,
    {
        let f = &files[i];
        assert(files@.take(i + 1).drop_last() =~= files@.take(i as int));
        if orphaned(f.file.as_str(), index) {
            match secret_name(f.file.as_str()) {
                Some(n) => {
                    report(
                        log,
                        Status::Warn,
                        "orphan .age file: ".to_owned().concat(f.probe.path.as_str()).concat(
                            " (name: '",
                        ).concat(n.as_str()).concat("')"),
                    );
                },
                None => {},
            }
        }
        assert(entries_view(log@) =~= start + orphan_entries(files@.take(i + 1), texts(index@)));
        i = i + 1;
    }
    assert(files@.take(i as int) =~= files@);
}

fn add_phantoms(log: &mut Vec<Entry>, index: &Vec<String>, held: &Vec<String>, Ghost(files): Ghost<
    Seq<Seq<char>>,
>) -> (n: usize)
    requires
        texts(held@) == secret_names(files),
    ensures
        entries_view(final(log)@) == entries_view(old(log)@) + phantom_entries(
            texts(index@),
            files,
        ),
        n == phantom_count(texts(index@), files),
{
    let ghost start = entries_view(log@);
    let ghost all = texts(index@);
    let mut n: usize = 0;
    let mut i: usize = 0;
    assert(start + phantom_entries(all.take(0), files) =~= start);
    while i < index.len()
        invariant
            i <= index@.len(),
            n <= i,
            all == texts(index@),
            texts(held@) == secret_names(files),
            entries_view(log@) == start + phantom_entries(all.take(i as int), files),
            n == phantom_count(all.take(i as int), files),
        decreases index@.len() - i,
    {
        assert(all.take(i + 1).drop_last() =~= all.take(i as int));
        if !is_among(index[i].as_str(), held) {
            report(
                log,
                Status::Warn,
                "phantom index entry: '".to_owned().concat(index[i].as_str()).concat(
                    "' (no .age file)",
                ),
            );
            n = n + 1;
        }
        assert(entries_view(log@) =~= start + phantom_entries(all.take(i + 1), files));
        i = i + 1;
    }
    assert(all.take(i as int) =~= all);
    n
}

fn add_decrypts(
    log: &mut Vec<Entry>,
    index: &Vec<String>,
    held: &Vec<String>,
    outcomes: &Vec<DecryptState>,
    Ghost(files): Ghost<Seq<Seq<char>>>,
)
    requires
        texts(held@) == secret_names(files),
        outcomes@.len() == index@.len(),
    ensures
        entries_view(final(log)@) == entries_view(old(log)@) + decrypt_entries(
            texts(index@),
            files,
            outcomes@,
        ),
{
    let ghost start = entries_view(log@);
    let ghost all = texts(index@);
    let mut i: usize = 0;
    assert(start + decrypt_entries(all.take(0), files, outcomes@) =~= start);
    while i < index.len()
        invariant
            i <= index@.len(),
            outcomes@.len() == index@.len(),
            all == texts(index@),
            texts(held@) == secret_names(files),
            entries_view(log@) == start + decrypt_entries(all.take(i as int), files, outcomes@),
        decreases index@.len() - i,
    {
        assert(all.take(i + 1).drop_last() =~= all.take(i as int));
        let name = index[i].as_str();
        if is_among(name, held) {
            match &outcomes[i] {
                DecryptState::Decrypted => report(
                    log,
                    Status::Pass,
                    "decrypt ok: '".to_owned().concat(name).concat("'"),
                ),
                DecryptState::Failed(e) => report(
                    log,
                    Status::Fail,
                    "decrypt failed: '".to_owned().concat(name).concat("' — ").concat(e.as_str()),
                ),
                DecryptState::Unloadable(e) => report(
                    log,
                    Status::Fail,
                    "cannot load '".to_owned().concat(name).concat("': ").concat(e.as_str()),
                ),
            }
        }
        assert(entries_view(log@) =~= start + decrypt_entries(all.take(i + 1), files, outcomes@));
        i = i + 1;
    }
    assert(all.take(i as int) =~= all);
}

fn add_removals(log: &mut Vec<Entry>, files: &Vec<AgeFile>, index: &Vec<String>)
    ensures
        entries_view(final(log)@) == entries_view(old(log)@) + removal_entries(
            files@,
            texts(index@),
        ),
{
    let ghost start = entries_view(log@);
    let mut i: usize = 0;
    assert(start + removal_entries(files@.take(0), texts(index@)) =~= start);
    while i < files.len()
        invariant
            i <= files@.len(),
            entries_view(log@) == start + removal_entries(files@.take(i as int), texts(index@)),
        decreases files@.len() - i,
    {
        let f = &files[i];
        assert(files@.take(i + 1).drop_last() =~= files@.take(i as int));
        if orphaned(f.file.as_str(), index) {
            match &f.removed {
                Ok(_) => report(
                    log,
                    Status::Fixed,
                    "removed orphan file: ".to_owned().concat(f.probe.path.as_str()),
                ),
                Err(e) => report(
                    log,
                    Status::Fail,
                    "failed to remove ".to_owned().concat(f.probe.path.as_str()).concat(
                        ": ",
                    ).concat(e.as_str()),
                ),
            }
        }
        assert(entries_view(log@) =~= start + removal_entries(files@.take(i + 1), texts(index@)));
        i = i + 1;
    }
    assert(files@.take(i as int) =~= files@);
}

/// The names of the index entries that `lines` holds, in order.
pub fn index_names(lines: &Vec<Option<String>>) -> (r: Vec<String>)
    ensures
        texts(r@) == sorted(valid_names(lines@)),
{
    let (entries, _) = parse_index(lines);
    let mut out: Vec<String> = Vec::new();
    let mut i: usize = 0;
    while i < entries.len()
        invariant
            i <= entries@.len(),
            texts(out@) =~= entry_names(entries@).take(i as int),
        decreases entries@.len() - i,
    {
        let ghost before = out@;
        out.push(entries[i].name.clone());
        assert(texts(out@) =~= texts(before).push(entry_names(entries@)[i as int]));
        i = i + 1;
    }
    assert(entry_names(entries@).take(i as int) =~= entry_names(entries@));
    out
}

/// The entries that a repair leaves in the index: those with a file, in order.
pub open spec fn kept_lines(
    index: Seq<IndexEntry>,
    files: Seq<Seq<char>>,
) -> Seq<usize>
    decreases index.len(),
{
    if index.len() == 0 {
        Seq::empty()
    } else {
        let rest = kept_lines(index.drop_last(), files);
        if secret_names(files).contains(index.last().name@) {
            rest.push(index.last().line)
        } else {
            rest
        }
    }
}

/// The lines of the entries that a repair leaves in the index, in the order of
/// their names.
pub fn cleaned_index(index: &Vec<IndexEntry>, files: &Vec<String>) -> (r: Vec<usize>)
    ensures
        r@ == kept_lines(index@, texts(files@)),
{
    let held = file_secret_names(files);
    let mut out: Vec<usize> = Vec::new();
    let mut i: usize = 0;
    while i < index.len()
        invariant
            i <= index@.len(),
            texts(held@) == secret_names(texts(files@)),
            out@ == kept_lines(index@.take(i as int), texts(files@)),
        decreases index@.len() - i,
    {
        assert(index@.take(i + 1).drop_last() =~= index@.take(i as int));
        if is_among(index[i].name.as_str(), &held) {
            out.push(index[i].line);
        }
        i = i + 1;
    }
    assert(index@.take(i as int) =~= index@);
    out
}

fn probe_files(files: &Vec<AgeFile>) -> (r: Vec<String>)
    ensures
        texts(r@) == age_file_names(files@),
{
    let mut out: Vec<String> = Vec::new();
    let mut i: usize = 0;
    while i < files.len()
        invariant
            i <= files@.len(),
            texts(out@) =~= age_file_names(files@).take(i as int),
        decreases files@.len() - i,
    {
        let ghost before = out@;
        out.push(files[i].file.clone());
        assert(texts(out@) =~= texts(before).push(age_file_names(files@)[i as int]));
        i = i + 1;
    }
    assert(age_file_names(files@).take(i as int) =~= age_file_names(files@));
    out
}

fn index_finding(bad: usize, valid: usize) -> (e: Entry)
    ensures
        bad > 0 ==> e@ == EntryView::Finding(
            Status::Fail,
            "index.jsonl has "@ + decimal(bad as int) + " unparseable line(s)"@,
        ),
        bad == 0 ==> e@ == EntryView::Finding(
            Status::Pass,
            "index.jsonl has "@ + decimal(valid as int) + " valid entries"@,
        ),
{
    if bad > 0 {
        Entry::Finding(
            Status::Fail,
            "index.jsonl has ".to_owned().concat(dec(bad as u128).as_str()).concat(
                " unparseable line(s)",
            ),
        )
    } else {
        Entry::Finding(
            Status::Pass,
            "index.jsonl has ".to_owned().concat(dec(valid as u128).as_str()).concat(
                " valid entries",
            ),
        )
    }
}

fn recipients_finding(r: &RecipientsState) -> (e: Entry)
    ensures
        e@ == recipients_entry(*r),
{
    match r {
        RecipientsState::Missing => Entry::Finding(
            Status::Warn,
            "recipients file not found".to_owned(),
        ),
        RecipientsState::Bad(e) => Entry::Finding(
            Status::Fail,
            "recipients file parse error: ".to_owned().concat(e.as_str()),
        ),
        RecipientsState::Loaded(n) => Entry::Finding(
            Status::Pass,
            "recipients file valid (".to_owned().concat(dec(*n as u128).as_str()).concat(
                " recipient(s))",
            ),
        ),
    }
}

fn identity_finding(s: &IdentityState) -> (e: Entry)
    ensures
        e@ == identity_entry(*s),
{
    match s {
        IdentityState::Missing => Entry::Finding(
            Status::Warn,
            "age identity file not found".to_owned(),
        ),
        IdentityState::Unreadable(e) => Entry::Finding(
            Status::Fail,
            "cannot read age identity: ".to_owned().concat(e.as_str()),
        ),
        IdentityState::Bad(e) => Entry::Finding(
            Status::Fail,
            "age identity parse error: ".to_owned().concat(e.as_str()),
        ),
        IdentityState::Valid => Entry::Finding(Status::Pass, "age identity is valid".to_owned()),
    }
}

/// The scan of the store; returns how many index entries have no file.
fn scan(
    log: &mut Vec<Entry>,
    probe: &FsckProbe,
    fix: bool,
    index: &Vec<String>,
    held: &Vec<String>,
) -> (gone: usize)
    requires
        probe.wf(),
        texts(index@) == probe.index_names(),
        texts(held@) == secret_names(probe.files()),
        old(log)@.len() == 0,
    ensures
        entries_view(final(log)@) == scan_entries(*probe, fix),
        gone == phantom_count(probe.index_names(), probe.files()),
{
    let ghost fs = probe.files();
    let (_, bad) = parse_index(&probe.index);
    assert(index@.len() == texts(index@).len());
    note(
        log,
        "onecipher fsck — checking secret store at ".to_owned().concat(probe.store_root.as_str()),
    );
    note(log, "".to_owned());
    enter(log, check_dir_permissions(&probe.home, DIR_MODE, "onecipher home", fix));
    enter(log, check_dir_permissions(&probe.store, DIR_MODE, "store root", fix));
    enter(log, check_dir_permissions(&probe.secrets, DIR_MODE, "secrets dir", fix));
    let ghost s0 = seq![
        EntryView::Note("onecipher fsck — checking secret store at "@ + probe.store_root@),
        EntryView::Note(""@),
        dir_finding(probe.home, DIR_MODE, "onecipher home"@, fix),
        dir_finding(probe.store, DIR_MODE, "store root"@, fix),
        dir_finding(probe.secrets, DIR_MODE, "secrets dir"@, fix),
    ];
    assert(entries_view(log@) =~= s0);
    add_age_modes(log, &probe.age_files, fix);
    let ghost s1 = s0 + age_mode_entries(probe.age_files@, fix);
    enter(log, index_finding(bad, index.len()));
    let ghost s2 = s1 + seq![index_entry(probe.index@)];
    assert(entries_view(log@) =~= s2);
    match &probe.index_file {
        Some(p) => enter(log, check_file_permissions(p, FILE_MODE, "index.jsonl", fix)),
        None => {},
    }
    let ghost s3 = s2 + index_mode_entries(probe.index_file, fix);
    assert(entries_view(log@) =~= s3);
    add_orphans(log, &probe.age_files, index);
    let gone: usize = add_phantoms(log, index, held, Ghost(fs));
    let ghost s5 = s3 + orphan_entries(probe.age_files@, probe.index_names()) + phantom_entries(
        probe.index_names(),
        fs,
    );
    assert(entries_view(log@) == s5);
    enter(log, recipients_finding(&probe.recipients));
    enter(log, identity_finding(&probe.identity));
    assert(entries_view(log@) =~= s5 + seq![
        recipients_entry(probe.recipients),
        identity_entry(probe.identity),
    ]);
    gone
}

/// The decryption of every secret, where the identity allows it.
fn try_decrypts(
    log: &mut Vec<Entry>,
    probe: &FsckProbe,
    index: &Vec<String>,
    held: &Vec<String>,
) -> (r: Result<(), CliError>)
    requires
        probe.wf(),
        texts(index@) == probe.index_names(),
        texts(held@) == secret_names(probe.files()),
    ensures
        entries_view(final(log)@) == entries_view(old(log)@) + decrypt_phase(*probe, true),
        match r {
            Ok(_) => !stops_at_open(*probe, true),
            Err(e) => stops_at_open(*probe, true) && e@ == CliErrorView::InvalidArgs(
                "failed to open store: "@ + probe.store_open->Err_0@,
            ),
        },
{
    let ghost fs = probe.files();
    let ghost start = entries_view(log@);
    assert(index@.len() == texts(index@).len());
    let valid = match &probe.identity {
        IdentityState::Valid => true,
        _ => false,
    };
    if valid {
        note(log, "".to_owned());
        note(log, "decrypt validation (this may take a while)...".to_owned());
        match &probe.store_open {
            Err(e) => {
                assert(entries_view(log@) =~= start + decrypt_phase(*probe, true));
                return Err(
                    invalid_args("failed to open store: ".to_owned().concat(e.as_str())),
                );
            },
            Ok(_) => {},
        }
        add_decrypts(log, index, held, &probe.decrypts, Ghost(fs));
    } else {
        report(
            log,
            Status::Warn,
            "skipping decrypt validation (no valid age identity)".to_owned(),
        );
    }
    assert(entries_view(log@) =~= start + decrypt_phase(*probe, true));
    Ok(())
}

/// The report on the repair.
fn apply_fixes(log: &mut Vec<Entry>, probe: &FsckProbe, index: &Vec<String>, gone: usize)
    requires
        texts(index@) == probe.index_names(),
        gone == phantom_count(probe.index_names(), probe.files()),
    ensures
        entries_view(final(log)@) == entries_view(old(log)@) + fix_phase(*probe, true),
{
    let ghost start = entries_view(log@);
    note(log, "".to_owned());
    note(log, "applying fixes...".to_owned());
    add_removals(log, &probe.age_files, index);
    if gone > 0 {
        match &probe.rewrite {
            Ok(_) => report(
                log,
                Status::Fixed,
                "rewrote index.jsonl (removed ".to_owned().concat(
                    dec(gone as u128).as_str(),
                ).concat(" phantom entry/entries)"),
            ),
            Err(e) => report(
                log,
                Status::Fail,
                "failed to rewrite index.jsonl: ".to_owned().concat(e.as_str()),
            ),
        }
    }
    assert(entries_view(log@) =~= start + fix_phase(*probe, true));
}

/// The summary; returns the number of errors.
fn summarise(log: &mut Vec<Entry>, fix: bool) -> (errors: usize)
    ensures
        entries_view(final(log)@) == entries_view(old(log)@) + summary_entries(
            entries_view(old(log)@),
            fix,
        ),
        errors == count_of(entries_view(old(log)@), Status::Fail),
{
    let ghost found = entries_view(log@);
    let errors: usize = count_status(&log, Status::Fail);
    let passed: usize = count_status(&log, Status::Pass);
    let warned: usize = count_status(&log, Status::Warn);
    let warnings: u128 = passed as u128 + warned as u128;
    let fixed: usize = count_status(&log, Status::Fixed);
    note(log, "".to_owned());
    if errors == 0 && warnings == 0 && fixed == 0 {
        note(log, "fsck complete: no issues found".to_owned());
    } else {
        let mut line = "fsck complete: ".to_owned().concat(dec(errors as u128).as_str()).concat(
            " error(s), ",
        ).concat(dec(warnings).as_str()).concat(" warning(s)");
        let tail = if fix {
            ", ".to_owned().concat(dec(fixed as u128).as_str()).concat(" fixed")
        } else {
            String::new()
        };
        line = line.concat(tail.as_str());
        note(log, line);
        if errors > 0 && !fix {
            note(
                log,
                "hint: run with --fix to automatically repair issues".to_owned(),
            );
        }
    }
    assert(entries_view(log@) =~= found + summary_entries(found, fix));
    errors
}

/// The report of a check, and whether it failed.
#[derive(Debug)]
pub struct FsckRun {
    pub entries: Vec<Entry>,
    pub result: Result<(), CliError>,
}

/// Checks the store from what was observed of it: the report, line by line,
/// and an error when any check failed or the store could not be opened for
/// decryption.
pub fn run(fix: bool, decrypt: bool, probe: &FsckProbe) -> (r: FsckRun)
    requires
        probe.wf(),
    ensures
        stops_at_open(*probe, decrypt) ==> {
            &&& entries_view(r.entries@) == scan_entries(*probe, fix) + decrypt_phase(
                *probe,
                decrypt,
            )
            &&& r.result matches Err(e) && e@ == CliErrorView::InvalidArgs(
                "failed to open store: "@ + probe.store_open->Err_0@,
            )
        },
        !stops_at_open(*probe, decrypt) ==> {
            let found = found_entries(*probe, fix, decrypt);
            let errors = count_of(found, Status::Fail);
            &&& entries_view(r.entries@) == found + summary_entries(found, fix)
            &&& match r.result {
                Ok(_) => errors == 0,
                Err(e) => errors > 0 && e@ == CliErrorView::InvalidArgs(
                    "fsck found "@ + decimal(errors) + " error(s)"@,
                ),
            }
        },
{
    let mut log: Vec<Entry> = Vec::new();
    let index = index_names(&probe.index);
    let files = probe_files(&probe.age_files);
    let held = file_secret_names(&files);
    let ghost fs = probe.files();
    assert(index@.len() == texts(index@).len());
    let gone: usize = scan(&mut log, probe, fix, &index, &held);
    assert(entries_view(log@) =~= scan_entries(*probe, fix));
    if decrypt {
        match try_decrypts(&mut log, probe, &index, &held) {
            Err(e) => return FsckRun { entries: log, result: Err(e) },
            Ok(_) => {},
        }
    }
    assert(entries_view(log@) =~= scan_entries(*probe, fix) + decrypt_phase(*probe, decrypt));
    if fix {
        apply_fixes(&mut log, probe, &index, gone);
    }
    let ghost found = found_entries(*probe, fix, decrypt);
    assert(entries_view(log@) =~= found);
    let errors: usize = summarise(&mut log, fix);
    if errors > 0 {
        FsckRun {
            entries: log,
            result: Err(
                invalid_args(
                    "fsck found ".to_owned().concat(dec(errors as u128).as_str()).concat(
                        " error(s)",
                    ),
                ),
            ),
        }
    } else {
        FsckRun { entries: log, result: Ok(()) }
    }
}

/// A path passes exactly when its permission bits are those that are expected;
/// otherwise it fails, unless it was to be fixed and was. Directories are for
/// their owner alone, and so are files, which nobody runs.
pub proof fn law_wrong_modes_fail(probe: PathProbe, expected: u32, label: Seq<char>, fix: bool)
    requires
        probe.state is Mode,
    ensures
        DIR_MODE == 0o700 && FILE_MODE == 0o600,
        ({
            let right = probe.state->Mode_0 & 0o777 == expected;
            let d = dir_finding(probe, expected, label, fix);
            let f = file_finding(probe, expected, label, fix);
            &&& d matches EntryView::Finding(s, _) && (s == Status::Pass <==> right) && (s
                == Status::Fixed <==> !right && fix && probe.chmod is Ok) && (s == Status::Fail <==>
                !right && !(fix && probe.chmod is Ok))
            &&& f matches EntryView::Finding(s, _) && (s == Status::Pass <==> right) && (s
                == Status::Fixed <==> !right && fix && probe.chmod is Ok) && (s == Status::Fail <==>
                !right && !(fix && probe.chmod is Ok))
            &&& wants_chmod(probe.state, expected, fix) <==> fix && !right
        }),
{
}

/// The value of octal digits.
pub open spec fn octal_value(s: Seq<char>) -> int
    decreases s.len(),
{
    if s.len() == 0 {
        0
    } else {
        octal_value(s.drop_last()) * 8 + (s.last() as int - 48)
    }
}

/// A mode is shown by its octal digits.
pub proof fn law_modes_are_octal(n: int)
    requires
        0 <= n,
    ensures
        octal_value(octal(n)) == n,
        octal(n).len() > 0,
    decreases n,
{
    if n < 8 {
        assert(octal(n).drop_last() =~= Seq::<char>::empty());
        assert(octal_value(Seq::<char>::empty()) == 0);
    } else {
        law_modes_are_octal(n / 8);
        assert(octal(n).drop_last() =~= octal(n / 8));
    }
}

/// The file of a secret is its encoded name and `.age`, and gives the name
/// back.
pub proof fn law_files_name_their_secret(name: Seq<char>)
    requires
        name.len() > 0,
    ensures
        secret_of(encoded_name(name) + ".age"@) == Some(name),
        is_age_name(encoded_name(name) + ".age"@),
        !is_age_name(".age"@),
{
    reveal_strlit(".age");
    law_file_names_round_trip(name);
    let e = encoded_name(name);
    let f = e + ".age"@;
    assert(e.len() > 0);
    assert(f.subrange(f.len() - 4, f.len() as int) =~= ".age"@);
    assert(f.take(f.len() - 4) =~= e);
    assert(f.len() != ".age"@.len());
}

/// The secrets of the files are exactly those that a file names.
pub proof fn law_secrets_are_those_of_the_files(files: Seq<Seq<char>>, n: Seq<char>)
    ensures
        secret_names(files).contains(n) <==> exists|i: int|
            0 <= i < files.len() && secret_of(#[trigger] files[i]) == Some(n),
    decreases files.len(),
{
    if files.len() > 0 {
        let front = files.drop_last();
        law_secrets_are_those_of_the_files(front, n);
        let rest = secret_names(front);
        let all = secret_names(files);
        if rest.contains(n) {
            let k = choose|k: int| 0 <= k < rest.len() && rest[k] == n;
            assert(all[k] == n);
        }
        if all.contains(n) {
            let k = choose|k: int| 0 <= k < all.len() && all[k] == n;
            if k < rest.len() {
                assert(rest[k] == n);
                let i = choose|i: int|
                    0 <= i < front.len() && secret_of(#[trigger] front[i]) == Some(n);
                assert(secret_of(files[i]) == Some(n));
            } else {
                assert(secret_of(files[files.len() - 1]) == Some(n));
            }
        }
        if exists|i: int| 0 <= i < files.len() && secret_of(#[trigger] files[i]) == Some(n) {
            let i = choose|i: int| 0 <= i < files.len() && secret_of(#[trigger] files[i]) == Some(n);
            if i < front.len() {
                assert(secret_of(front[i]) == Some(n));
            } else {
                assert(all.last() == n);
                assert(all.contains(n));
            }
        }
    }
}

/// A file is an orphan exactly when it is an `.age` file whose secret the index
/// does not know.
pub proof fn law_orphans_are_unknown_to_the_index(file: Seq<char>, index: Seq<Seq<char>>)
    ensures
        is_orphan(file, index) <==> is_age_name(file) && !index.contains(
            decoded_name(file.take(file.len() - 4)),
        ),
{
}

/// Something is counted exactly when there is a finding of that kind.
pub proof fn law_counts_are_of_findings(v: Seq<EntryView>, k: Status)
    ensures
        count_of(v, k) >= 0,
        count_of(v, k) > 0 <==> exists|i: int|
            0 <= i < v.len() && (#[trigger] v[i] matches EntryView::Finding(s, _) && s == k),
    decreases v.len(),
{
    if v.len() > 0 {
        let front = v.drop_last();
        law_counts_are_of_findings(front, k);
        if count_of(front, k) > 0 {
            let i = choose|i: int|
                0 <= i < front.len() && (#[trigger] front[i] matches EntryView::Finding(s, _) && s
                    == k);
            assert(v[i] == front[i]);
        }
        if v.last() matches EntryView::Finding(s, _) && s == k {
            assert(v[v.len() - 1] == v.last());
        }
        if exists|i: int|
            0 <= i < v.len() && (#[trigger] v[i] matches EntryView::Finding(s, _) && s == k) {
            let i = choose|i: int|
                0 <= i < v.len() && (#[trigger] v[i] matches EntryView::Finding(s, _) && s == k);
            if i < front.len() {
                assert(front[i] == v[i]);
            }
        }
    }
}

/// A directory with a wrong mode and an identity that cannot be used are errors
/// of the whole check.
pub proof fn law_faults_are_errors_of_the_check(p: FsckProbe, fix: bool, decrypt: bool)
    ensures
        ({
            let found = found_entries(p, fix, decrypt);
            &&& !fix && (p.home.state matches PathState::Mode(m) && m & 0o777 != 0o700) ==> count_of(
                found,
                Status::Fail,
            ) > 0
            &&& !fix && (p.store.state matches PathState::Mode(m) && m & 0o777 != 0o700)
                ==> count_of(found, Status::Fail) > 0
            &&& !fix && (p.secrets.state matches PathState::Mode(m) && m & 0o777 != 0o700)
                ==> count_of(found, Status::Fail) > 0
            &&& p.identity is Bad || p.identity is Unreadable ==> count_of(found, Status::Fail) > 0
            &&& p.recipients is Bad ==> count_of(found, Status::Fail) > 0
        }),
{
    let found = found_entries(p, fix, decrypt);
    let scan = scan_entries(p, fix);
    law_counts_are_of_findings(found, Status::Fail);
    assert(found[2] == scan[2] && found[3] == scan[3] && found[4] == scan[4]);
    assert(scan[2] == dir_finding(p.home, DIR_MODE, "onecipher home"@, fix));
    assert(scan[3] == dir_finding(p.store, DIR_MODE, "store root"@, fix));
    assert(scan[4] == dir_finding(p.secrets, DIR_MODE, "secrets dir"@, fix));
    let n = scan.len() as int;
    assert(found[n - 1] == scan[n - 1] && found[n - 2] == scan[n - 2]);
    assert(scan[n - 1] == identity_entry(p.identity));
    assert(scan[n - 2] == recipients_entry(p.recipients));
}

/// A line of the index is kept exactly when its secret has a file.
pub proof fn law_lines_with_files_are_kept(
    index: Seq<IndexEntry>,
    files: Seq<Seq<char>>,
    line: usize,
)
    ensures
        kept_lines(index, files).contains(line) <==> exists|i: int|
            0 <= i < index.len() && (#[trigger] index[i]).line == line && secret_names(
                files,
            ).contains(index[i].name@),
    decreases index.len(),
{
    if index.len() > 0 {
        let front = index.drop_last();
        law_lines_with_files_are_kept(front, files, line);
        let rest = kept_lines(front, files);
        let all = kept_lines(index, files);
        if rest.contains(line) {
            let k = choose|k: int| 0 <= k < rest.len() && rest[k] == line;
            assert(all[k] == line);
        }
        if all.contains(line) {
            let k = choose|k: int| 0 <= k < all.len() && all[k] == line;
            if k < rest.len() {
                assert(rest[k] == line);
                let i = choose|i: int|
                    0 <= i < front.len() && (#[trigger] front[i]).line == line && secret_names(
                        files,
                    ).contains(front[i].name@);
                assert(index[i].line == line);
            } else {
                assert(index[index.len() - 1].line == line);
            }
        }
        if exists|i: int|
            0 <= i < index.len() && (#[trigger] index[i]).line == line && secret_names(
                files,
            ).contains(index[i].name@) {
            let i = choose|i: int|
                0 <= i < index.len() && (#[trigger] index[i]).line == line && secret_names(
                    files,
                ).contains(index[i].name@);
            if i < front.len() {
                assert(front[i].line == line);
            } else {
                assert(all.last() == line);
                assert(all.contains(line));
            }
        }
    }
}

/// There is a finding on phantoms exactly when the index knows a secret that no
/// file names.
pub proof fn law_phantoms_have_no_file(index: Seq<Seq<char>>, files: Seq<Seq<char>>)
    ensures
        phantom_count(index, files) > 0 <==> exists|i: int|
            0 <= i < index.len() && !secret_names(files).contains(#[trigger] index[i]),
        forall|i: int|
            0 <= i < phantom_entries(index, files).len() ==> (#[trigger] phantom_entries(
                index,
                files,
            )[i] matches EntryView::Finding(s, _) && s == Status::Warn),
    decreases index.len(),
{
    if index.len() > 0 {
        let front = index.drop_last();
        law_phantoms_have_no_file(front, files);
        if phantom_count(front, files) > 0 {
            let i = choose|i: int|
                0 <= i < front.len() && !secret_names(files).contains(#[trigger] front[i]);
            assert(!secret_names(files).contains(index[i]));
        }
        if exists|i: int| 0 <= i < index.len() && !secret_names(files).contains(#[trigger] index[i]) {
            let i = choose|i: int|
                0 <= i < index.len() && !secret_names(files).contains(#[trigger] index[i]);
            if i < front.len() {
                assert(!secret_names(files).contains(front[i]));
            }
        }
        if !secret_names(files).contains(index.last()) {
            assert(!secret_names(files).contains(index[index.len() - 1]));
        }
    }
}

/// Nothing is decrypted unless it is asked for and there is an identity that can.
pub proof fn law_decryption_needs_an_identity(p: FsckProbe, decrypt: bool)
    ensures
        !decrypt ==> decrypt_phase(p, decrypt).len() == 0,
        decrypt && !(p.identity is Valid) ==> decrypt_phase(p, decrypt).len() == 1
            && decrypt_phase(p, decrypt)[0] is Finding,
        stops_at_open(p, decrypt) <==> decrypt && p.identity is Valid && p.store_open is Err,
        fix_phase(p, false).len() == 0,
{
}

/// The summary says that nothing was found exactly when nothing was; otherwise it
/// counts what was found, and points to the repair only where one was not made.
pub proof fn law_summaries_count_what_was_found(v: Seq<EntryView>, fix: bool)
    ensures
        summary_entries(v, fix).contains(EntryView::Note("fsck complete: no issues found"@))
            <== count_of(v, Status::Fail) == 0 && count_of(v, Status::Warn) == 0 && count_of(
            v,
            Status::Pass,
        ) == 0 && count_of(v, Status::Fixed) == 0,
        count_of(v, Status::Fail) > 0 ==> (summary_entries(v, fix)[1] matches EntryView::Note(t)
            && shows(t, "fsck complete: "@, decimal(count_of(v, Status::Fail))) && shows(
            t,
            " error(s), "@,
            decimal(count_of(v, Status::Pass) + count_of(v, Status::Warn)),
        ) && (fix ==> shows(t, " warning(s), "@, decimal(count_of(v, Status::Fixed))))),
        count_of(v, Status::Fail) > 0 ==> (summary_entries(v, fix).len() == 3 <==> !fix),
        count_of(v, Status::Fail) > 0 && !fix ==> summary_entries(v, fix).last() == EntryView::Note(
            "hint: run with --fix to automatically repair issues"@,
        ),
{
    let s = summary_entries(v, fix);
    let e = decimal(count_of(v, Status::Fail));
    let w = decimal(count_of(v, Status::Pass) + count_of(v, Status::Warn));
    let x = decimal(count_of(v, Status::Fixed));
    if count_of(v, Status::Fail) > 0 {
        let t = s[1]->Note_0;
        let f = if fix {
            ", "@ + x + " fixed"@
        } else {
            Seq::empty()
        };
        assert(t == "fsck complete: "@ + e + " error(s), "@ + w + " warning(s)"@ + f);
    assert(shows(t, "fsck complete: "@, e)) by {
        let a = Seq::<char>::empty();
        let b = " error(s), "@ + w + " warning(s)"@ + f;
        lemma_shows(a, "fsck complete: "@, e, b);
        assert(t =~= a + "fsck complete: "@ + e + b);
    }
    assert(shows(t, " error(s), "@, w)) by {
        let a = "fsck complete: "@ + e;
        let b = " warning(s)"@ + f;
        lemma_shows(a, " error(s), "@, w, b);
        assert(t =~= a + " error(s), "@ + w + b);
    }
        if fix {
            assert(shows(t, " warning(s), "@, x)) by {
                reveal_strlit(" warning(s)");
                reveal_strlit(", ");
                reveal_strlit(" warning(s), ");
                assert(" warning(s), "@ =~= " warning(s)"@ + ", "@);
                let a = "fsck complete: "@ + e + " error(s), "@ + w;
                lemma_shows(a, " warning(s), "@, x, " fixed"@);
                assert(t =~= a + " warning(s), "@ + x + " fixed"@);
            }
        }
    } else if s.len() == 2 {
        assert(s[1] == s[1]);
    }
}

/// The secrets' files are those that end in `.age`, and only those.
pub proof fn law_secret_files_end_in_age(files: Seq<Seq<char>>, x: Seq<char>)
    ensures
        age_names(files.push(x)) == if ".age"@.is_suffix_of(x) && x != ".age"@ {
            age_names(files).push(x)
        } else {
            age_names(files)
        },
        age_names(Seq::<Seq<char>>::empty()).len() == 0,
{
    assert(files.push(x).drop_last() =~= files);
}

/// Blank lines of the index count for nothing, and every other line without the
/// space around it.
pub proof fn law_blank_lines_are_skipped(v: Seq<Seq<char>>, x: Seq<char>)
    ensures
        crate::text::trim(x).len() == 0 ==> index_lines(v.push(x)) == index_lines(v),
        crate::text::trim(x).len() > 0 ==> index_lines(v.push(x)) == index_lines(v).push(
            crate::text::trim(x),
        ),
        index_lines(Seq::<Seq<char>>::empty()).len() == 0,
{
    assert(v.push(x).drop_last() =~= v);
}

/// The positions of valid lines are those at which a line could be read, in order.
pub proof fn law_valid_lines_are_found(v: Seq<Option<String>>, i: int)
    ensures
        valid_positions(v).contains(i) <==> 0 <= i < v.len() && v[i] is Some,
        forall|a: int, b: int|
            0 <= a < b < valid_positions(v).len() ==> #[trigger] valid_positions(v)[a]
                < #[trigger] valid_positions(v)[b],
        forall|a: int|
            0 <= a < valid_positions(v).len() ==> #[trigger] valid_positions(v)[a] < v.len(),
    decreases v.len(),
{
    if v.len() > 0 {
        let w = v.drop_last();
        law_valid_lines_are_found(w, i);
        let rest = valid_positions(w);
        let all = valid_positions(v);
        if v.last() is Some {
            assert(all == rest.push(v.len() - 1));
            assert(all[rest.len() as int] == v.len() - 1);
            if rest.contains(i) {
                let k = choose|k: int| 0 <= k < rest.len() && rest[k] == i;
                assert(all[k] == i);
            }
            if all.contains(i) && i != v.len() - 1 {
                let k = choose|k: int| 0 <= k < all.len() && all[k] == i;
                assert(rest[k] == i);
            }
        }
    }
}

/// What is read of the value in a contract is the value itself, each part under its
/// own name.
pub proof fn law_entry_views_keep_each_value(x: Entry)
    ensures
        x matches Entry::Note(s) ==> x@ == EntryView::Note(s@),
        x matches Entry::Finding(k, s) ==> x@ == EntryView::Finding(k, s@),
{
}

/// Without a repair nothing is changed; with one the index is rewritten exactly when
/// it names secrets that have no file, and says how many.
pub proof fn law_repairs_rewrite_the_index_when_needed(p: FsckProbe)
    ensures
        fix_phase(p, false).len() == 0,
        fix_phase(p, true)[1] == EntryView::Note("applying fixes..."@),
        ({
            let gone = phantom_count(p.index_names(), p.files());
            let rest = removal_entries(p.age_files@, p.index_names()).len();
            &&& gone <= 0 ==> fix_phase(p, true).len() == 2 + rest
            &&& gone > 0 ==> fix_phase(p, true).len() == 3 + rest
            &&& gone > 0 && p.rewrite is Ok ==> fix_phase(p, true).last() == EntryView::Finding(
                Status::Fixed,
                "rewrote index.jsonl (removed "@ + decimal(gone) + " phantom entry/entries)"@,
            )
            &&& gone > 0 && p.rewrite is Err ==> fix_phase(p, true).last() == EntryView::Finding(
                Status::Fail,
                "failed to rewrite index.jsonl: "@ + p.rewrite->Err_0@,
            )
        }),
{
}

/// Each kind of finding has a mark of its own.
pub proof fn law_findings_have_marks(s: Status)
    ensures
        s is Pass ==> status_tag(s) == "[OK]"@,
        s is Warn ==> status_tag(s) == "[WARN]"@,
        s is Fail ==> status_tag(s) == "[FAIL]"@,
        s is Fixed ==> status_tag(s) == "[FIXED]"@,
{
}

} // verus!
