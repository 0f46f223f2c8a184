//! `doctor`: the health of the installation.
//!
//! Home and store, hardening, identity and recipients, the index, file modes,
//! the configuration, the repository, the journal and the generation census
//! are observed outside; this module turns the observations into one report,
//! which has a human rendering with the names of unreadable secrets hidden
//! unless asked for.
use vstd::prelude::*;

use crate::commands::fsck::{
    file_secret_names, index_lines, is_age_file, is_age_name,
    permission_bits, secret_names, split_index, valid_names, RecipientsState, DIR_MODE, FILE_MODE,
};
use crate::commands::render::{
    fields_view, public_field, secret_field, Field, FieldView, Report, ReportView,
};
use crate::error::{invalid_args, CliError, CliErrorView};
use crate::seqs::lemma_push_to_set;
use crate::text::{
    bool_text, chars_of, contains, contains_text, dec, decimal, ends_with, is_among, join, joined,
    lemma_shows_first, lemma_shows_last, lemma_shows_more, lemma_shows_more4, lines,
    occurs_at, show_bool, shows, texts,
};

verus! {

// ---------------------------------------------------------------------------
// Observations
// ---------------------------------------------------------------------------

/// A directory: absent, or present with its mode where the system has modes.
#[derive(Debug)]
pub enum Place {
    Missing,
    Present(Option<u32>),
}

/// The age identity file.
#[derive(Debug)]
pub enum IdentityProbe {
    Unreadable(String),
    Bad(String),
    Valid,
}

/// The index file: absent, unreadable, or for each line that is not blank the
/// name it parses to.
#[derive(Debug)]
pub enum IndexProbe {
    Missing,
    Unreadable(String),
    Lines(Vec<Option<String>>),
}

/// A file in the secrets directory, with its mode where the system has modes.
#[derive(Debug)]
pub struct SecretFile {
    pub file: String,
    pub mode: Option<u32>,
}

/// A secret of the store and whether it could be decrypted.
#[derive(Debug)]
pub struct Scanned {
    pub name: String,
    pub readable: bool,
}

/// What a repair of the generation floor had to work with.
#[derive(Debug)]
pub enum RepairProbe {
    Unavailable,
    Scanned(Vec<Scanned>),
}

/// The census of generations.
#[derive(Clone, Copy, Debug, PartialEq, Eq, Structural)]
pub struct GenerationCensusView {
    pub sealed: usize,
    pub lag: usize,
    pub stale: usize,
    pub missing: usize,
    pub tombstones: usize,
    pub fully_protected: usize,
    /// Wallets of the keystore, which count as sealed.
    pub wallet_keys: usize,
}

/// The hardening of the process.
#[derive(Clone, Copy, Debug, PartialEq, Eq, Structural)]
pub struct HardeningStatus {
    pub mlock_available: bool,
    pub dumpable_disabled: bool,
    pub umask_strict: bool,
}

/// Everything that was observed.
#[derive(Debug)]
pub struct DoctorProbe {
    pub home_path: String,
    pub home: Place,
    pub store_path: String,
    pub store: Place,
    pub identity_path: String,
    pub identity: IdentityProbe,
    pub recipients_path: String,
    pub recipients: RecipientsState,
    pub index_path: String,
    pub index: IndexProbe,
    /// The files of the secrets directory; none when it cannot be read.
    pub secrets: Vec<SecretFile>,
    /// What came of loading the configuration, if there is one.
    pub config: Option<Result<(), String>>,
    /// Whether the store is a repository, where repositories are supported.
    pub repository: Option<bool>,
    pub git_template_healed: bool,
    pub journal_forwarded: usize,
    pub journal_rolled_back: usize,
    pub census: GenerationCensusView,
    /// The repair, if one was asked for.
    pub repair: Option<RepairProbe>,
    /// Whether each secret of the store could be decrypted.
    pub samples: Vec<bool>,
    /// The file names in the store root and in the secrets directory.
    pub file_names: Vec<String>,
    pub hardening: HardeningStatus,
}

/// The hardening of the process: memory locking and the dump ban come with the
/// system, the dump ban also with `ONECIPHER_HARDENED`.
pub fn hardening_status(unix: bool, hardened: bool) -> (r: HardeningStatus)
    ensures
        r.mlock_available == unix,
        r.dumpable_disabled == (hardened || unix),
        r.umask_strict,
{
    HardeningStatus { mlock_available: unix, dumpable_disabled: hardened || unix, umask_strict: true }
}

/// The permission bits of a mode.
pub fn mode_of(mode: Option<u32>) -> (r: Option<u32>)
    ensures
        r == match mode {
            Some(m) => Some(permission_bits(m)),
            None => None,
        },
{
    match mode {
        Some(m) => Some(m & 0o777),
        None => None,
    }
}

// ---------------------------------------------------------------------------
// The git ignore template
// ---------------------------------------------------------------------------

/// The line for a pattern that the template lacks.
pub open spec fn template_line(existing: Seq<char>, pattern: Seq<char>) -> Seq<char> {
    if contains_text(existing, pattern) {
        Seq::empty()
    } else {
        pattern + "\n"@
    }
}

/// The template as far as it goes, ending with a line break.
pub open spec fn template_base(existing: Seq<char>) -> Seq<char> {
    if existing.len() > 0 && existing.last() != '\n' {
        existing.push('\n')
    } else {
        existing
    }
}

/// The template with what it lacks at its end.
pub open spec fn healed_template(existing: Seq<char>) -> Seq<char> {
    template_base(existing) + template_line(existing, "*.tmp"@) + template_line(
        existing,
        ".staging-*/"@,
    ) + template_line(existing, "generations.sealed"@)
}

/// The template covers staging and temporary files.
pub open spec fn is_complete_template(t: Seq<char>) -> bool {
    contains_text(t, "*.tmp"@) && contains_text(t, ".staging-*/"@) && contains_text(
        t,
        "generations.sealed"@,
    )
}

fn add_pattern(out: &mut String, existing: &str, pattern: &str)
    ensures
        final(out)@ == old(out)@ + template_line(existing@, pattern@),
{
    if !contains(existing, pattern) {
        let line = pattern.to_owned().concat("\n");
        out.append(line.as_str());
    } else {
        assert(out@ + Seq::<char>::empty() =~= out@);
    }
}

/// The ignore template with staging and temporary files covered; `None` when
/// they are.
pub fn ensure_git_template(existing: &str) -> (r: Option<String>)
    ensures
        match r {
            None => is_complete_template(existing@),
            Some(t) => !is_complete_template(existing@) && t@ == healed_template(existing@),
        },
{
    if contains(existing, "*.tmp") && contains(existing, ".staging-*/") && contains(
        existing,
        "generations.sealed",
    ) {
        return None;
    }
    let mut out = existing.to_owned();
    let v = chars_of(existing);
    if v.len() > 0 && v[v.len() - 1] != '\n' {
        out.push('\n');
    }
    add_pattern(&mut out, existing, "*.tmp");
    add_pattern(&mut out, existing, ".staging-*/");
    add_pattern(&mut out, existing, "generations.sealed");
    Some(out)
}

proof fn lemma_contains_in_sum(a: Seq<char>, b: Seq<char>, p: Seq<char>)
    ensures
        contains_text(a, p) ==> contains_text(a + b, p),
        contains_text(b, p) ==> contains_text(a + b, p),
{
    if contains_text(a, p) {
        let i = choose|i: int| occurs_at(a, p, i);
        assert((a + b).subrange(i, i + p.len()) =~= a.subrange(i, i + p.len()));
        assert(occurs_at(a + b, p, i));
    }
    if contains_text(b, p) {
        let i = choose|i: int| occurs_at(b, p, i);
        assert((a + b).subrange(a.len() + i, a.len() + i + p.len()) =~= b.subrange(
            i,
            i + p.len(),
        ));
        assert(occurs_at(a + b, p, a.len() + i));
    }
}

proof fn lemma_healed_has(existing: Seq<char>, before: Seq<char>, after: Seq<char>, p: Seq<char>)
    ensures
        contains_text(
            template_base(existing) + before + template_line(existing, p) + after,
            p,
        ),
{
    let base = template_base(existing);
    if contains_text(existing, p) {
        let i = choose|i: int| occurs_at(existing, p, i);
        assert(base.subrange(i, i + p.len()) =~= existing.subrange(i, i + p.len()));
        assert(occurs_at(base, p, i));
        lemma_contains_in_sum(base, before, p);
        lemma_contains_in_sum(base + before, template_line(existing, p), p);
    } else {
        let line = template_line(existing, p);
        assert(line.subrange(0, p.len() as int) =~= p);
        assert(occurs_at(line, p, 0));
        lemma_contains_in_sum(base + before, line, p);
    }
    lemma_contains_in_sum(base + before + template_line(existing, p), after, p);
}

/// Healing the template makes it complete, so healing it again does nothing.
pub proof fn law_template_heals_once(existing: Seq<char>)
    ensures
        is_complete_template(healed_template(existing)),
{
    let base = template_base(existing);
    let a = template_line(existing, "*.tmp"@);
    let b = template_line(existing, ".staging-*/"@);
    let c = template_line(existing, "generations.sealed"@);
    let none = Seq::<char>::empty();
    lemma_healed_has(existing, none, b + c, "*.tmp"@);
    assert(base + none + a + (b + c) =~= healed_template(existing));
    lemma_healed_has(existing, a, c, ".staging-*/"@);
    lemma_healed_has(existing, a + b, none, "generations.sealed"@);
    assert(base + (a + b) + c + none =~= healed_template(existing));
}

// ---------------------------------------------------------------------------
// Counting
// ---------------------------------------------------------------------------

/// How many of the names end in `.tmp`.
pub open spec fn tmp_count(names: Seq<Seq<char>>) -> int
    decreases names.len(),
{
    if names.len() == 0 {
        0
    } else {
        tmp_count(names.drop_last()) + if ".tmp"@.is_suffix_of(names.last()) {
            1int
        } else {
            0int
        }
    }
}

/// How many of the names end in `.tmp`.
pub fn count_orphan_tmp(names: &Vec<String>) -> (n: usize)
    ensures
        n == tmp_count(texts(names@)),
{
    let ghost all = texts(names@);
    let mut n: usize = 0;
    let mut i: usize = 0;
    while i < names.len()
        invariant
            i <= names@.len(),
            n <= i,
            all == texts(names@),
            n == tmp_count(all.take(i as int)),
        decreases names@.len() - i,
    {
        assert(all.take(i + 1).drop_last() =~= all.take(i as int));
        if ends_with(names[i].as_str(), ".tmp") {
            n = n + 1;
        }
        i = i + 1;
    }
    assert(all.take(i as int) =~= all);
    n
}

/// The names in a tombstone file, one a line.
pub fn load_tombstones(content: &str) -> (r: Vec<String>)
    ensures
        texts(r@) == index_lines(lines(content@)),
{
    split_index(content)
}

/// The members of `a` that are not in `b`.
pub open spec fn difference(a: Seq<Seq<char>>, b: Seq<Seq<char>>) -> Set<Seq<char>> {
    a.to_set().difference(b.to_set())
}

/// How many different names of `a` are not in `b`.
pub fn count_difference(a: &Vec<String>, b: &Vec<String>) -> (n: usize)
    ensures
        n == difference(texts(a@), texts(b@)).len(),
{
    let ghost all = texts(a@);
    let ghost other = texts(b@);
    let mut seen: Vec<String> = Vec::new();
    let mut i: usize = 0;
    proof {
        assert(difference(all.take(0), other) =~= Set::<Seq<char>>::empty());
        assert(texts(seen@).to_set() =~= Set::<Seq<char>>::empty());
    }
    while i < a.len()
        invariant
            i <= a@.len(),
            all == texts(a@),
            other == texts(b@),
            seen@.len() <= i,
            texts(seen@).to_set() == difference(all.take(i as int), other),
            texts(seen@).to_set().finite(),
            seen@.len() == texts(seen@).to_set().len(),
        decreases a@.len() - i,
    {
        let ghost head = all.take(i as int);
        let ghost next = all.take(i + 1);
        let ghost x = all[i as int];
        let ghost before = seen@;
        proof {
            assert(next =~= head.push(x));
            lemma_push_to_set(head, x);
        }
        if !is_among(a[i].as_str(), b) && !is_among(a[i].as_str(), &seen) {
            seen.push(a[i].clone());
            proof {
                let old_set = texts(before).to_set();
                let new = texts(seen@);
                assert(new =~= texts(before).push(x));
                lemma_push_to_set(texts(before), x);
                assert(!old_set.contains(x));
                assert(new.to_set() =~= difference(next, other));
            }
        } else {
            assert(texts(seen@).to_set() =~= difference(next, other));
        }
        i = i + 1;
    }
    assert(all.take(i as int) =~= all);
    seen.len()
}

// ---------------------------------------------------------------------------
// The checks
// ---------------------------------------------------------------------------

/// The running result of the checks.
#[derive(Debug)]
pub struct Tally {
    pub failures: u32,
    pub warnings: u32,
    pub notes: Vec<String>,
}

/// A [`Tally`] over integers and sequences.
pub struct TallyView {
    pub failures: int,
    pub warnings: int,
    pub notes: Seq<Seq<char>>,
}

impl View for Tally {
    type V = TallyView;

    open spec fn view(&self) -> TallyView {
        TallyView {
            failures: self.failures as int,
            warnings: self.warnings as int,
            notes: texts(self.notes@),
        }
    }
}

impl TallyView {
    /// One more failure, with its note.
    pub open spec fn fail(self, note: Seq<char>) -> TallyView {
        TallyView { failures: self.failures + 1, notes: self.notes.push(note), ..self }
    }

    /// One more warning, with its note.
    pub open spec fn warn(self, note: Seq<char>) -> TallyView {
        TallyView { warnings: self.warnings + 1, notes: self.notes.push(note), ..self }
    }

    /// A note alone.
    pub open spec fn note(self, note: Seq<char>) -> TallyView {
        TallyView { notes: self.notes.push(note), ..self }
    }
}

impl Tally {
    fn fail(&mut self, note: String)
        requires
            old(self).failures < u32::MAX,
        ensures
            final(self)@ == old(self)@.fail(note@),
    {
        let ghost before = self.notes@;
        self.failures = self.failures + 1;
        self.notes.push(note);
        assert(texts(self.notes@) =~= texts(before).push(note@));
    }

    fn warn(&mut self, note: String)
        requires
            old(self).warnings < u32::MAX,
        ensures
            final(self)@ == old(self)@.warn(note@),
    {
        let ghost before = self.notes@;
        self.warnings = self.warnings + 1;
        self.notes.push(note);
        assert(texts(self.notes@) =~= texts(before).push(note@));
    }

    fn note(&mut self, note: String)
        ensures
            final(self)@ == old(self)@.note(note@),
    {
        let ghost before = self.notes@;
        self.notes.push(note);
        assert(texts(self.notes@) =~= texts(before).push(note@));
    }
}

/// A directory has to be there, with mode 0700.
pub open spec fn checked_place(t: TallyView, place: Place, path: Seq<char>, what: Seq<char>) -> TallyView {
    match place {
        Place::Missing => t.fail(path + " does not exist"@),
        Place::Present(Some(m)) => if permission_bits(m) != DIR_MODE {
            t.warn(what + " permissions are not 0700"@)
        } else {
            t
        },
        Place::Present(None) => t,
    }
}

fn check_place(t: &mut Tally, place: &Place, path: &str, what: &str)
    requires
        old(t).failures < u32::MAX,
        old(t).warnings < u32::MAX,
    ensures
        final(t)@ == checked_place(old(t)@, *place, path@, what@),
{
    match place {
        Place::Missing => t.fail(path.to_owned().concat(" does not exist")),
        Place::Present(mode) => match mode_of(*mode) {
            Some(m) => if m != DIR_MODE {
                t.warn(what.to_owned().concat(" permissions are not 0700"));
            },
            None => {},
        },
    }
}

/// The identity has to be readable and to parse.
pub open spec fn checked_identity(t: TallyView, id: IdentityProbe, path: Seq<char>) -> TallyView {
    match id {
        IdentityProbe::Unreadable(e) => t.fail("cannot read "@ + path + ": "@ + e@),
        IdentityProbe::Bad(e) => t.fail("age identity parse error: "@ + e@),
        IdentityProbe::Valid => t,
    }
}

fn check_identity(t: &mut Tally, id: &IdentityProbe, path: &str)
    requires
        old(t).failures < u32::MAX,
    ensures
        final(t)@ == checked_identity(old(t)@, *id, path@),
{
    match id {
        IdentityProbe::Unreadable(e) => t.fail(
            "cannot read ".to_owned().concat(path).concat(": ").concat(e.as_str()),
        ),
        IdentityProbe::Bad(e) => t.fail(
            "age identity parse error: ".to_owned().concat(e.as_str()),
        ),
        IdentityProbe::Valid => {},
    }
}

/// There has to be at least one recipient.
pub open spec fn checked_recipients(
    t: TallyView,
    r: RecipientsState,
    path: Seq<char>,
) -> TallyView {
    match r {
        RecipientsState::Missing => t.fail(
            path + " does not exist — run `onecipher age init`"@,
        ),
        RecipientsState::Bad(e) => t.fail("recipients parse error: "@ + e@),
        RecipientsState::Loaded(n) => if n == 0 {
            t.fail("no recipients configured"@)
        } else {
            t.note(decimal(n as int) + " recipient(s)"@)
        },
    }
}

fn check_recipients(t: &mut Tally, r: &RecipientsState, path: &str)
    requires
        old(t).failures < u32::MAX,
    ensures
        final(t)@ == checked_recipients(old(t)@, *r, path@),
{
    match r {
        RecipientsState::Missing => t.fail(
            path.to_owned().concat(" does not exist — run `onecipher age init`"),
        ),
        RecipientsState::Bad(e) => t.fail(
            "recipients parse error: ".to_owned().concat(e.as_str()),
        ),
        RecipientsState::Loaded(n) => if *n == 0 {
            t.fail("no recipients configured".to_owned());
        } else {
            t.note(dec(*n as u128).concat(" recipient(s)"));
        },
    }
}

/// Every line of the index has to parse.
pub open spec fn checked_index(t: TallyView, index: IndexProbe, path: Seq<char>) -> TallyView {
    match index {
        IndexProbe::Missing => t.fail(path + " does not exist"@),
        IndexProbe::Unreadable(e) => t.fail("cannot read index: "@ + e@),
        IndexProbe::Lines(v) => {
            let bad = v@.len() - valid_names(v@).len();
            if bad > 0 {
                t.fail("index.jsonl has "@ + decimal(bad) + " invalid line(s)"@)
            } else {
                t.note("index holds "@ + decimal(v@.len() as int) + " entries"@)
            }
        },
    }
}

/// The names in the index, in file order.
pub open spec fn probe_names(index: IndexProbe) -> Seq<Seq<char>> {
    match index {
        IndexProbe::Lines(v) => valid_names(v@),
        _ => Seq::empty(),
    }
}

fn names_in(index: &IndexProbe) -> (r: Vec<String>)
    ensures
        texts(r@) == probe_names(*index),
{
    let mut out: Vec<String> = Vec::new();
    assert(texts(out@) =~= Seq::<Seq<char>>::empty());
    match index {
        IndexProbe::Lines(v) => {
            let mut i: usize = 0;
            while i < v.len()
                invariant
                    i <= v@.len(),
                    texts(out@) == valid_names(v@.take(i as int)),
                decreases v@.len() - i,
            {
                assert(v@.take(i + 1).drop_last() =~= v@.take(i as int));
                match &v[i] {
                    Some(n) => {
                        let ghost before = out@;
                        out.push(n.clone());
                        assert(texts(out@) =~= texts(before).push(n@));
                    },
                    None => {},
                }
                i = i + 1;
            }
            assert(v@.take(i as int) =~= v@);
            out
        },
        _ => out,
    }
}

proof fn lemma_valid_names_fewer(v: Seq<Option<String>>)
    ensures
        valid_names(v).len() <= v.len(),
    decreases v.len(),
{
    if v.len() > 0 {
        lemma_valid_names_fewer(v.drop_last());
    }
}

fn check_index(t: &mut Tally, index: &IndexProbe, path: &str)
    requires
        old(t).failures < u32::MAX,
    ensures
        final(t)@ == checked_index(old(t)@, *index, path@),
{
    match index {
        IndexProbe::Missing => t.fail(path.to_owned().concat(" does not exist")),
        IndexProbe::Unreadable(e) => t.fail("cannot read index: ".to_owned().concat(e.as_str())),
        IndexProbe::Lines(v) => {
            let names = names_in(index);
            assert(names@.len() == texts(names@).len());
            proof {
                lemma_valid_names_fewer(v@);
            }
            let bad: usize = v.len() - names.len();
            if bad > 0 {
                t.fail(
                    "index.jsonl has ".to_owned().concat(dec(bad as u128).as_str()).concat(
                        " invalid line(s)",
                    ),
                );
            } else {
                t.note(
                    "index holds ".to_owned().concat(dec(v.len() as u128).as_str()).concat(
                        " entries",
                    ),
                );
            }
        },
    }
}

/// How many `.age` files have a mode other than 0600.
pub open spec fn open_files(files: Seq<SecretFile>) -> int
    decreases files.len(),
{
    if files.len() == 0 {
        0
    } else {
        let f = files.last();
        open_files(files.drop_last()) + if is_age_name(f.file@) && (f.mode matches Some(m)
            && permission_bits(m) != FILE_MODE) {
            1int
        } else {
            0int
        }
    }
}

/// The `.age` files should have mode 0600.
pub open spec fn checked_modes(t: TallyView, files: Seq<SecretFile>) -> TallyView {
    if open_files(files) > 0 {
        t.warn(decimal(open_files(files)) + " .age file(s) without mode 0600"@)
    } else {
        t
    }
}

fn check_modes(t: &mut Tally, files: &Vec<SecretFile>)
    requires
        old(t).warnings < u32::MAX,
    ensures
        final(t)@ == checked_modes(old(t)@, files@),
{
    let mut bad: usize = 0;
    let mut i: usize = 0;
    while i < files.len()
        invariant
            i <= files@.len(),
            bad <= i,
            bad == open_files(files@.take(i as int)),
        decreases files@.len() - i,
    {
        assert(files@.take(i + 1).drop_last() =~= files@.take(i as int));
        if is_age_file(files[i].file.as_str()) {
            match mode_of(files[i].mode) {
                Some(m) => if m != FILE_MODE {
                    bad = bad + 1;
                },
                None => {},
            }
        }
        i = i + 1;
    }
    assert(files@.take(i as int) =~= files@);
    if bad > 0 {
        t.warn(dec(bad as u128).concat(" .age file(s) without mode 0600"));
    }
}

/// The names of files.
pub open spec fn secret_file_names(files: Seq<SecretFile>) -> Seq<Seq<char>> {
    Seq::new(files.len(), |i: int| files[i].file@)
}

/// Index and files should name the same secrets.
pub open spec fn checked_orphans(
    t: TallyView,
    files: Seq<Seq<char>>,
    index: Seq<Seq<char>>,
) -> TallyView {
    let orphans = difference(secret_names(files), index).len();
    let phantoms = difference(index, secret_names(files)).len();
    if orphans > 0 || phantoms > 0 {
        t.warn(
            decimal(orphans as int) + " orphan file(s), "@ + decimal(phantoms as int)
                + " phantom index entries"@,
        )
    } else {
        t
    }
}

fn check_orphans(t: &mut Tally, files: &Vec<SecretFile>, index: &IndexProbe)
    requires
        old(t).warnings < u32::MAX,
    ensures
        final(t)@ == checked_orphans(old(t)@, secret_file_names(files@), probe_names(*index)),
{
    let mut names: Vec<String> = Vec::new();
    let mut i: usize = 0;
    while i < files.len()
        invariant
            i <= files@.len(),
            texts(names@) =~= secret_file_names(files@).take(i as int),
        decreases files@.len() - i,
    {
        let ghost before = names@;
        names.push(files[i].file.clone());
        assert(texts(names@) =~= texts(before).push(secret_file_names(files@)[i as int]));
        i = i + 1;
    }
    assert(secret_file_names(files@).take(i as int) =~= secret_file_names(files@));
    let held = file_secret_names(&names);
    let indexed = names_in(index);
    let orphans: usize = count_difference(&held, &indexed);
    let phantoms: usize = count_difference(&indexed, &held);
    if orphans > 0 || phantoms > 0 {
        t.warn(
            dec(orphans as u128).concat(" orphan file(s), ").concat(
                dec(phantoms as u128).as_str(),
            ).concat(" phantom index entries"),
        );
    }
}

/// A configuration that is there has to load; a store should be a repository;
/// a journal that was recovered is noted.
pub open spec fn checked_rest(t: TallyView, p: DoctorProbe) -> TallyView {
    let t1 = match p.config {
        Some(Err(e)) => t.fail("config parse error: "@ + e@),
        _ => t,
    };
    let t2 = if p.repository == Some(false) {
        t1.warn("vault is not a git repository"@)
    } else {
        t1
    };
    if p.journal_forwarded > 0 || p.journal_rolled_back > 0 {
        t2.note(
            "journal: +"@ + decimal(p.journal_forwarded as int) + " forwarded / -"@ + decimal(
                p.journal_rolled_back as int,
            ) + " rolled back"@,
        )
    } else {
        t2
    }
}

fn check_rest(t: &mut Tally, p: &DoctorProbe)
    requires
        old(t).failures < u32::MAX,
        old(t).warnings < u32::MAX,
    ensures
        final(t)@ == checked_rest(old(t)@, *p),
{
    match &p.config {
        Some(Err(e)) => t.fail("config parse error: ".to_owned().concat(e.as_str())),
        _ => {},
    }
    match p.repository {
        Some(is_repository) => if !is_repository {
            t.warn("vault is not a git repository".to_owned());
        },
        None => {},
    }
    if p.journal_forwarded > 0 || p.journal_rolled_back > 0 {
        t.note(
            "journal: +".to_owned().concat(dec(p.journal_forwarded as u128).as_str()).concat(
                " forwarded / -",
            ).concat(dec(p.journal_rolled_back as u128).as_str()).concat(" rolled back"),
        );
    }
}

/// The names of the secrets that could not be decrypted.
pub open spec fn unreadable_names(v: Seq<Scanned>) -> Seq<Seq<char>>
    decreases v.len(),
{
    if v.len() == 0 {
        Seq::empty()
    } else if v.last().readable {
        unreadable_names(v.drop_last())
    } else {
        unreadable_names(v.drop_last()).push(v.last().name@)
    }
}

/// The secrets that a repair skips.
pub open spec fn skipped_names(repair: Option<RepairProbe>) -> Seq<Seq<char>> {
    match repair {
        Some(RepairProbe::Scanned(v)) => unreadable_names(v@),
        _ => Seq::empty(),
    }
}

/// What a repair adds to the notes.
pub open spec fn checked_repair(t: TallyView, repair: Option<RepairProbe>) -> TallyView {
    match repair {
        None => t,
        Some(RepairProbe::Unavailable) => t.note("repair skipped: store or identity unavailable"@),
        Some(RepairProbe::Scanned(v)) => if unreadable_names(v@).len() > 0 {
            t.note(
                "repair skipped "@ + decimal(unreadable_names(v@).len() as int)
                    + " unreadable; rm + re-insert them"@,
            )
        } else {
            t
        },
    }
}

fn check_repair(t: &mut Tally, repair: &Option<RepairProbe>) -> (skipped: Vec<String>)
    ensures
        final(t)@ == checked_repair(old(t)@, *repair),
        texts(skipped@) == skipped_names(*repair),
{
    let mut skipped: Vec<String> = Vec::new();
    assert(texts(skipped@) =~= Seq::<Seq<char>>::empty());
    match repair {
        None => {},
        Some(RepairProbe::Unavailable) => t.note(
            "repair skipped: store or identity unavailable".to_owned(),
        ),
        Some(RepairProbe::Scanned(v)) => {
            let mut i: usize = 0;
            while i < v.len()
                invariant
                    i <= v@.len(),
                    texts(skipped@) == unreadable_names(v@.take(i as int)),
                decreases v@.len() - i,
            {
                assert(v@.take(i + 1).drop_last() =~= v@.take(i as int));
                if !v[i].readable {
                    let ghost before = skipped@;
                    skipped.push(v[i].name.clone());
                    assert(texts(skipped@) =~= texts(before).push(v@[i as int].name@));
                }
                i = i + 1;
            }
            assert(v@.take(i as int) =~= v@);
            assert(skipped@.len() == texts(skipped@).len());
            if skipped.len() > 0 {
                t.note(
                    "repair skipped ".to_owned().concat(
                        dec(skipped.len() as u128).as_str(),
                    ).concat(" unreadable; rm + re-insert them"),
                );
            }
        },
    }
    skipped
}

/// Temporary files that were left behind.
pub open spec fn checked_tmp(t: TallyView, names: Seq<Seq<char>>) -> TallyView {
    if tmp_count(names) > 0 {
        t.warn(decimal(tmp_count(names)) + " orphan .tmp file(s)"@)
    } else {
        t
    }
}

/// The checks in order.
pub open spec fn all_checks(p: DoctorProbe) -> TallyView {
    let t0 = TallyView { failures: 0, warnings: 0, notes: Seq::empty() };
    let t1 = checked_place(t0, p.home, p.home_path@, "home"@);
    let t2 = checked_place(t1, p.store, p.store_path@, "secret store"@);
    let t3 = checked_identity(t2, p.identity, p.identity_path@);
    let t4 = checked_recipients(t3, p.recipients, p.recipients_path@);
    let t5 = checked_index(t4, p.index, p.index_path@);
    let t6 = checked_modes(t5, p.secrets@);
    let t7 = checked_orphans(t6, secret_file_names(p.secrets@), probe_names(p.index));
    let t8 = checked_rest(t7, p);
    let t9 = checked_repair(t8, p.repair);
    checked_tmp(t9, texts(p.file_names@))
}

/// The number of secrets that are decrypted as a sample.
pub const SAMPLES: usize = 20;

/// How many of the first `n` samples are `good`.
pub open spec fn samples_that(v: Seq<bool>, n: int, good: bool) -> int
    decreases n,
{
    if n <= 0 || v.len() == 0 {
        0
    } else if n > v.len() {
        samples_that(v, v.len() as int, good)
    } else {
        samples_that(v, n - 1, good) + if v[n - 1] == good {
            1int
        } else {
            0int
        }
    }
}

fn tally_samples(v: &Vec<bool>) -> (r: (usize, usize))
    ensures
        r.0 == samples_that(v@, SAMPLES as int, true),
        r.1 == samples_that(v@, SAMPLES as int, false),
{
    let n: usize = if v.len() < SAMPLES {
        v.len()
    } else {
        SAMPLES
    };
    let mut good: usize = 0;
    let mut bad: usize = 0;
    let mut i: usize = 0;
    while i < n
        invariant
            i <= n <= v@.len(),
            good <= i,
            bad <= i,
            good == samples_that(v@, i as int, true),
            bad == samples_that(v@, i as int, false),
        decreases n - i,
    {
        if v[i] {
            good = good + 1;
        } else {
            bad = bad + 1;
        }
        i = i + 1;
    }
    (good, bad)
}

/// The report that both renderings come from.
#[derive(Debug)]
pub struct DoctorReport {
    pub failures: u32,
    pub warnings: u32,
    pub hardening: HardeningStatus,
    pub identity_ok: bool,
    pub recipients_ok: bool,
    pub recipients_open: bool,
    pub git_template_healed: bool,
    pub journal_forwarded: usize,
    pub journal_rolled_back: usize,
    pub generation_census: GenerationCensusView,
    pub repair_skipped: Vec<String>,
    pub sample_decrypt_ok: usize,
    pub sample_decrypt_fail: usize,
    pub orphan_tmp: usize,
    pub notes: Vec<String>,
}

/// The report on what was observed.
pub fn collect_report(p: &DoctorProbe) -> (r: DoctorReport)
    ensures
        r.failures == all_checks(*p).failures,
        r.warnings == all_checks(*p).warnings,
        texts(r.notes@) == all_checks(*p).notes,
        r.hardening == p.hardening,
        r.identity_ok == (p.identity is Valid),
        r.recipients_ok == (p.recipients matches RecipientsState::Loaded(n) && n > 0),
        r.recipients_open == !(p.recipients is Missing),
        r.git_template_healed == p.git_template_healed,
        r.journal_forwarded == p.journal_forwarded,
        r.journal_rolled_back == p.journal_rolled_back,
        r.generation_census == p.census,
        texts(r.repair_skipped@) == skipped_names(p.repair),
        r.sample_decrypt_ok == samples_that(p.samples@, SAMPLES as int, true),
        r.sample_decrypt_fail == samples_that(p.samples@, SAMPLES as int, false),
        r.orphan_tmp == tmp_count(texts(p.file_names@)),
{
    let mut t = Tally { failures: 0, warnings: 0, notes: Vec::new() };
    assert(texts(t.notes@) =~= Seq::<Seq<char>>::empty());
    check_place(&mut t, &p.home, p.home_path.as_str(), "home");
    check_place(&mut t, &p.store, p.store_path.as_str(), "secret store");
    check_identity(&mut t, &p.identity, p.identity_path.as_str());
    check_recipients(&mut t, &p.recipients, p.recipients_path.as_str());
    check_index(&mut t, &p.index, p.index_path.as_str());
    check_modes(&mut t, &p.secrets);
    check_orphans(&mut t, &p.secrets, &p.index);
    check_rest(&mut t, p);
    let skipped = check_repair(&mut t, &p.repair);
    let (good, bad) = tally_samples(&p.samples);
    let orphan_tmp: usize = count_orphan_tmp(&p.file_names);
    if orphan_tmp > 0 {
        t.warn(dec(orphan_tmp as u128).concat(" orphan .tmp file(s)"));
    }
    assert(t@ == all_checks(*p));
    let identity_ok = match &p.identity {
        IdentityProbe::Valid => true,
        _ => false,
    };
    let (recipients_ok, recipients_open) = match &p.recipients {
        RecipientsState::Missing => (false, false),
        RecipientsState::Bad(_) => (false, true),
        RecipientsState::Loaded(n) => (*n > 0, true),
    };
    DoctorReport {
        failures: t.failures,
        warnings: t.warnings,
        hardening: p.hardening,
        identity_ok,
        recipients_ok,
        recipients_open,
        git_template_healed: p.git_template_healed,
        journal_forwarded: p.journal_forwarded,
        journal_rolled_back: p.journal_rolled_back,
        generation_census: p.census,
        repair_skipped: skipped,
        sample_decrypt_ok: good,
        sample_decrypt_fail: bad,
        orphan_tmp,
        notes: t.notes,
    }
}

/// The error of a run: any failed check fails it.
pub fn run_ext(report: &DoctorReport) -> (r: Result<(), CliError>)
    ensures
        match r {
            Ok(_) => report.failures == 0,
            Err(e) => report.failures > 0 && e@ == CliErrorView::InvalidArgs(
                decimal(report.failures as int) + " diagnostic check(s) failed"@,
            ),
        },
{
    if report.failures > 0 {
        Err(invalid_args(dec(report.failures as u128).concat(" diagnostic check(s) failed")))
    } else {
        Ok(())
    }
}

// ---------------------------------------------------------------------------
// The generation floor
// ---------------------------------------------------------------------------

/// The generation of a secret.
#[derive(Debug)]
pub struct Generation {
    pub name: String,
    pub generation: u64,
}

/// What a list of generations means; a later entry for a name wins.
pub open spec fn generations(v: Seq<Generation>) -> Map<Seq<char>, u64>
    decreases v.len(),
{
    if v.len() == 0 {
        Map::empty()
    } else {
        generations(v.drop_last()).insert(v.last().name@, v.last().generation)
    }
}

/// The generations after the secrets from position `i` on were looked at: a
/// readable secret has at least generation one.
pub open spec fn raised(m: Map<Seq<char>, u64>, v: Seq<Scanned>, i: int) -> Map<Seq<char>, u64>
    decreases v.len() - i,
{
    if i >= v.len() {
        m
    } else if v[i].readable {
        let n = v[i].name@;
        raised(
            m.insert(
                n,
                if m.contains_key(n) && m[n] > 1 {
                    m[n]
                } else {
                    1u64
                },
            ),
            v,
            i + 1,
        )
    } else {
        raised(m, v, i + 1)
    }
}

fn generation_of(v: &Vec<Generation>, name: &str) -> (r: Option<u64>)
    ensures
        match r {
            Some(g) => generations(v@).contains_key(name@) && generations(v@)[name@] == g,
            None => !generations(v@).contains_key(name@),
        },
{
    let mut i: usize = v.len();
    assert(v@.take(i as int) =~= v@);
    while i > 0
        invariant
            i <= v@.len(),
            generations(v@.take(i as int)).contains_key(name@) == generations(v@).contains_key(
                name@,
            ),
            generations(v@).contains_key(name@) ==> generations(v@.take(i as int))[name@]
                == generations(v@)[name@],
        decreases i,
    {
        assert(v@.take(i as int).drop_last() =~= v@.take(i - 1));
        if crate::text::same(v[i - 1].name.as_str(), name) {
            return Some(v[i - 1].generation);
        }
        i = i - 1;
    }
    None
}

/// Raises the generation floor to one for every readable secret.
pub fn repair_floor(floor: &mut Vec<Generation>, scanned: &Vec<Scanned>)
    ensures
        generations(final(floor)@) == raised(generations(old(floor)@), scanned@, 0),
{
    let mut i: usize = 0;
    while i < scanned.len()
        invariant
            i <= scanned@.len(),
            raised(generations(old(floor)@), scanned@, 0) == raised(
                generations(floor@),
                scanned@,
                i as int,
            ),
        decreases scanned@.len() - i,
    {
        if scanned[i].readable {
            let name = scanned[i].name.as_str();
            let g: u64 = match generation_of(&*floor, name) {
                Some(g) => if g > 1 {
                    g
                } else {
                    1
                },
                None => 1,
            };
            let ghost before = floor@;
            floor.push(Generation { name: name.to_owned(), generation: g });
            assert(floor@.drop_last() =~= before);
        }
        i = i + 1;
    }
}

proof fn lemma_raised_keeps(m: Map<Seq<char>, u64>, v: Seq<Scanned>, i: int, n: Seq<char>)
    requires
        0 <= i,
    ensures
        m.contains_key(n) ==> raised(m, v, i).contains_key(n) && raised(m, v, i)[n] >= m[n],
    decreases v.len() - i,
{
    if i < v.len() {
        if v[i].readable {
            let k = v[i].name@;
            let g = if m.contains_key(k) && m[k] > 1 {
                m[k]
            } else {
                1u64
            };
            lemma_raised_keeps(m.insert(k, g), v, i + 1, n);
        } else {
            lemma_raised_keeps(m, v, i + 1, n);
        }
    }
}

/// A repair never lowers the generation of a secret.
pub proof fn law_repair_never_lowers(m: Map<Seq<char>, u64>, v: Seq<Scanned>, n: Seq<char>)
    ensures
        m.contains_key(n) && m[n] >= 1 ==> raised(m, v, 0).contains_key(n) && raised(m, v, 0)[n]
            >= m[n],
{
    lemma_raised_keeps(m, v, 0, n);
}

// ---------------------------------------------------------------------------
// The human rendering
// ---------------------------------------------------------------------------

/// `ok` or `missing`.
pub fn ok(b: bool) -> (r: &'static str)
    ensures
        r@ == ok_text(b),
{
    if b {
        "ok"
    } else {
        "missing"
    }
}

/// `ok` or `missing`.
pub open spec fn ok_text(b: bool) -> Seq<char> {
    if b {
        "ok"@
    } else {
        "missing"@
    }
}

/// The numbered notes as fields.
pub open spec fn note_fields(notes: Seq<Seq<char>>) -> Seq<FieldView> {
    Seq::new(notes.len(), |i: int| public_field("note"@ + decimal(i), notes[i]))
}

/// The fields of the report.
pub open spec fn report_fields(r: DoctorReport) -> Seq<FieldView> {
    let h = r.hardening;
    let c = r.generation_census;
    seq![
        public_field("status"@, "checking system health"@),
        public_field(
            "hardening"@,
            "mlock="@ + bool_text(h.mlock_available) + " dumpable_disabled="@ + bool_text(
                h.dumpable_disabled,
            ) + " umask_strict="@ + bool_text(h.umask_strict),
        ),
        public_field("identity"@, ok_text(r.identity_ok)),
        public_field(
            "recipients"@,
            ok_text(r.recipients_ok) + " (open="@ + bool_text(r.recipients_open) + ")"@,
        ),
        public_field("git_template_healed"@, bool_text(r.git_template_healed)),
        public_field(
            "journal"@,
            "+"@ + decimal(r.journal_forwarded as int) + "/-"@ + decimal(
                r.journal_rolled_back as int,
            ),
        ),
        public_field(
            "generations"@,
            "sealed="@ + decimal(c.sealed as int) + " lag="@ + decimal(c.lag as int) + " stale="@
                + decimal(c.stale as int) + " missing="@ + decimal(c.missing as int)
                + " tombstones="@ + decimal(c.tombstones as int) + " fully_protected="@ + decimal(
                c.fully_protected as int,
            ) + " wallet_keys="@ + decimal(c.wallet_keys as int),
        ),
        public_field(
            "sample_decrypt"@,
            "ok="@ + decimal(r.sample_decrypt_ok as int) + " fail="@ + decimal(
                r.sample_decrypt_fail as int,
            ),
        ),
        public_field("orphan_tmp"@, decimal(r.orphan_tmp as int)),
    ] + note_fields(texts(r.notes@)) + if r.repair_skipped@.len() > 0 {
        seq![secret_field("skipped"@, join(texts(r.repair_skipped@), ", "@))]
    } else {
        Seq::empty()
    }
}

/// The verdict under the fields.
pub open spec fn verdict(r: DoctorReport, verbose: bool) -> Seq<char> {
    let head = if verbose {
        "  verbose: failures="@ + decimal(r.failures as int) + " warnings="@ + decimal(
            r.warnings as int,
        ) + "\n"@
    } else {
        Seq::empty()
    };
    head + if r.failures > 0 {
        "doctor: "@ + decimal(r.failures as int) + " failure(s), "@ + decimal(r.warnings as int)
            + " warning(s) — fix failures before use\n"@
    } else if r.warnings > 0 {
        "doctor: 0 failures, "@ + decimal(r.warnings as int)
            + " warning(s) — system is operational\n"@
    } else {
        "doctor: all checks passed\n"@
    }
}

fn push_public(fields: &mut Vec<Field>, key: String, value: String)
    ensures
        fields_view(final(fields)@) == fields_view(old(fields)@).push(
            public_field(key@, value@),
        ),
{
    let ghost before = fields@;
    let f = Field::public(key, value);
    fields.push(f);
    assert(fields_view(fields@) =~= fields_view(before).push(f@));
}

fn census_text(c: &GenerationCensusView) -> (r: String)
    ensures
        r@ == "sealed="@ + decimal(c.sealed as int) + " lag="@ + decimal(c.lag as int)
            + " stale="@ + decimal(c.stale as int) + " missing="@ + decimal(c.missing as int)
            + " tombstones="@ + decimal(c.tombstones as int) + " fully_protected="@ + decimal(
            c.fully_protected as int,
        ) + " wallet_keys="@ + decimal(c.wallet_keys as int),
{
    "sealed=".to_owned().concat(dec(c.sealed as u128).as_str()).concat(" lag=").concat(
        dec(c.lag as u128).as_str(),
    ).concat(" stale=").concat(dec(c.stale as u128).as_str()).concat(" missing=").concat(
        dec(c.missing as u128).as_str(),
    ).concat(" tombstones=").concat(dec(c.tombstones as u128).as_str()).concat(
        " fully_protected=",
    ).concat(dec(c.fully_protected as u128).as_str()).concat(" wallet_keys=").concat(
        dec(c.wallet_keys as u128).as_str(),
    )
}

fn collect_fields(r: &DoctorReport) -> (fields: Vec<Field>)
    ensures
        fields_view(fields@) == report_fields(*r),
{
    let h = &r.hardening;
    let mut fields: Vec<Field> = Vec::new();
    push_public(&mut fields, "status".to_owned(), "checking system health".to_owned());
    push_public(
        &mut fields,
        "hardening".to_owned(),
        "mlock=".to_owned().concat(show_bool(h.mlock_available)).concat(
            " dumpable_disabled=",
        ).concat(show_bool(h.dumpable_disabled)).concat(" umask_strict=").concat(
            show_bool(h.umask_strict),
        ),
    );
    push_public(&mut fields, "identity".to_owned(), ok(r.identity_ok).to_owned());
    push_public(
        &mut fields,
        "recipients".to_owned(),
        ok(r.recipients_ok).to_owned().concat(" (open=").concat(
            show_bool(r.recipients_open),
        ).concat(")"),
    );
    push_public(
        &mut fields,
        "git_template_healed".to_owned(),
        show_bool(r.git_template_healed).to_owned(),
    );
    push_public(
        &mut fields,
        "journal".to_owned(),
        "+".to_owned().concat(dec(r.journal_forwarded as u128).as_str()).concat("/-").concat(
            dec(r.journal_rolled_back as u128).as_str(),
        ),
    );
    push_public(&mut fields, "generations".to_owned(), census_text(&r.generation_census));
    push_public(
        &mut fields,
        "sample_decrypt".to_owned(),
        "ok=".to_owned().concat(dec(r.sample_decrypt_ok as u128).as_str()).concat(" fail=").concat(
            dec(r.sample_decrypt_fail as u128).as_str(),
        ),
    );
    push_public(&mut fields, "orphan_tmp".to_owned(), dec(r.orphan_tmp as u128));
    let ghost head = fields_view(fields@);
    let ghost want = note_fields(texts(r.notes@));
    let mut i: usize = 0;
    assert(head + want.take(0) =~= head);
    while i < r.notes.len()
        invariant
            i <= r.notes@.len(),
            want == note_fields(texts(r.notes@)),
            fields_view(fields@) == head + want.take(i as int),
        decreases r.notes@.len() - i,
    {
        push_public(
            &mut fields,
            "note".to_owned().concat(dec(i as u128).as_str()),
            r.notes[i].clone(),
        );
        assert(fields_view(fields@) =~= head + want.take(i + 1));
        i = i + 1;
    }
    assert(want.take(i as int) =~= want);
    if r.repair_skipped.len() > 0 {
        let ghost before = fields@;
        let f = Field::secret("skipped".to_owned(), joined(&r.repair_skipped, ", "));
        fields.push(f);
        assert(fields_view(fields@) =~= fields_view(before).push(f@));
    }
    assert(fields_view(fields@) =~= report_fields(*r));
    fields
}

/// The human text of the report; the names of skipped secrets are shown only
/// when `verbose`.
pub fn print_human(r: &DoctorReport, verbose: bool) -> (out: String)
    ensures
        out@ == (ReportView { title: "onecipher doctor"@, fields: report_fields(*r) }).human(
            verbose,
        ) + verdict(*r, verbose),
{
    let fields = collect_fields(r);
    let report = Report { title: "onecipher doctor".to_owned(), fields };
    let text = report.revealing(verbose).render();
    let head = if verbose {
        "  verbose: failures=".to_owned().concat(dec(r.failures as u128).as_str()).concat(
            " warnings=",
        ).concat(dec(r.warnings as u128).as_str()).concat("\n")
    } else {
        String::new()
    };
    let tail = if r.failures > 0 {
        "doctor: ".to_owned().concat(dec(r.failures as u128).as_str()).concat(
            " failure(s), ",
        ).concat(dec(r.warnings as u128).as_str()).concat(
            " warning(s) — fix failures before use\n",
        )
    } else if r.warnings > 0 {
        "doctor: 0 failures, ".to_owned().concat(dec(r.warnings as u128).as_str()).concat(
            " warning(s) — system is operational\n",
        )
    } else {
        "doctor: all checks passed\n".to_owned()
    };
    text.concat(head.concat(tail.as_str()).as_str())
}

/// One for what holds.
pub open spec fn one_if(b: bool) -> int {
    if b {
        1
    } else {
        0
    }
}

/// The failures are those that make the store unusable: a home or a store that
/// is missing, an identity that cannot be used, no recipients, an index that is
/// missing or damaged, and a configuration that cannot be read.
pub proof fn law_failures_are_counted(p: DoctorProbe)
    ensures
        all_checks(p).failures == one_if(p.home is Missing) + one_if(p.store is Missing) + one_if(
            !(p.identity is Valid),
        ) + one_if(!(p.recipients matches RecipientsState::Loaded(n) && n > 0)) + one_if(
            match p.index {
                IndexProbe::Lines(v) => valid_names(v@).len() != v@.len(),
                _ => true,
            },
        ) + one_if(p.config matches Some(Err(_))),
{
    if let IndexProbe::Lines(v) = p.index {
        lemma_valid_at_most(v@);
    }
}

proof fn lemma_valid_at_most(v: Seq<Option<String>>)
    ensures
        valid_names(v).len() <= v.len(),
    decreases v.len(),
{
    if v.len() > 0 {
        lemma_valid_at_most(v.drop_last());
    }
}

/// The warnings are those that leave the store usable: a home or a store that
/// others may enter, secrets that others may read, files and index entries that do
/// not match, a store that is no repository, and files that were left over.
pub proof fn law_warnings_are_counted(p: DoctorProbe)
    ensures
        all_checks(p).warnings == one_if(
            p.home matches Place::Present(Some(m)) && m & 0o777 != 0o700,
        ) + one_if(p.store matches Place::Present(Some(m)) && m & 0o777 != 0o700) + one_if(
            open_files(p.secrets@) > 0,
        ) + one_if(
            difference(
                secret_names(secret_file_names(p.secrets@)),
                probe_names(p.index),
            ).len() > 0 || difference(
                probe_names(p.index),
                secret_names(secret_file_names(p.secrets@)),
            ).len() > 0,
        ) + one_if(p.repository == Some(false)) + one_if(tmp_count(texts(p.file_names@)) > 0),
{
}

/// Files are reported as open exactly when an `.age` file has a mode other than
/// 0600.
pub proof fn law_open_files_have_wrong_modes(files: Seq<SecretFile>)
    ensures
        open_files(files) >= 0,
        open_files(files) > 0 <==> exists|i: int|
            0 <= i < files.len() && is_age_name((#[trigger] files[i]).file@) && (
            files[i].mode matches Some(m) && m & 0o777 != 0o600),
    decreases files.len(),
{
    if files.len() > 0 {
        let front = files.drop_last();
        law_open_files_have_wrong_modes(front);
        if open_files(front) > 0 {
            let i = choose|i: int|
                0 <= i < front.len() && is_age_name((#[trigger] front[i]).file@) && (
                front[i].mode matches Some(m) && m & 0o777 != 0o600);
            assert(files[i] == front[i]);
        }
        assert(files[files.len() - 1] == files.last());
        if exists|i: int|
            0 <= i < files.len() && is_age_name((#[trigger] files[i]).file@) && (
            files[i].mode matches Some(m) && m & 0o777 != 0o600) {
            let i = choose|i: int|
                0 <= i < files.len() && is_age_name((#[trigger] files[i]).file@) && (
                files[i].mode matches Some(m) && m & 0o777 != 0o600);
            if i < front.len() {
                assert(front[i] == files[i]);
            }
        }
    }
}

/// Left-over files are those whose name ends in `.tmp`.
pub proof fn law_left_over_files_end_in_tmp(names: Seq<Seq<char>>)
    ensures
        tmp_count(names) >= 0,
        tmp_count(names) > 0 <==> exists|i: int|
            0 <= i < names.len() && ".tmp"@.is_suffix_of(#[trigger] names[i]),
    decreases names.len(),
{
    if names.len() > 0 {
        let front = names.drop_last();
        law_left_over_files_end_in_tmp(front);
        if tmp_count(front) > 0 {
            let i = choose|i: int|
                0 <= i < front.len() && ".tmp"@.is_suffix_of(#[trigger] front[i]);
            assert(".tmp"@.is_suffix_of(names[i]));
        }
        if ".tmp"@.is_suffix_of(names.last()) {
            assert(".tmp"@.is_suffix_of(names[names.len() - 1]));
        }
        if exists|i: int| 0 <= i < names.len() && ".tmp"@.is_suffix_of(#[trigger] names[i]) {
            let i = choose|i: int|
                0 <= i < names.len() && ".tmp"@.is_suffix_of(#[trigger] names[i]);
            if i < front.len() {
                assert(".tmp"@.is_suffix_of(front[i]));
            }
        }
    }
}

/// At most twenty secrets are tried, and each counts as one of the two.
pub proof fn law_samples_are_the_first_twenty(v: Seq<bool>, n: int)
    requires
        0 <= n,
    ensures
        SAMPLES == 20,
        samples_that(v, n, true) + samples_that(v, n, false) == if n < v.len() {
            n
        } else {
            v.len() as int
        },
        samples_that(v, n, true) >= 0,
        samples_that(v, n, false) >= 0,
    decreases v.len() + n,
{
    if n > 0 && v.len() > 0 {
        if n > v.len() {
            law_samples_are_the_first_twenty(v, v.len() as int);
        } else {
            law_samples_are_the_first_twenty(v, n - 1);
        }
    }
}

/// A secret that can be read gets a generation of at least one and keeps a
/// higher one; all others keep what they have.
pub proof fn law_repair_raises_the_readable(
    m: Map<Seq<char>, u64>,
    v: Seq<Scanned>,
    i: int,
    n: Seq<char>,
)
    requires
        0 <= i <= v.len(),
    ensures
        (exists|k: int| i <= k < v.len() && (#[trigger] v[k]).readable && v[k].name@ == n)
            ==> raised(m, v, i).contains_key(n) && raised(m, v, i)[n] == if m.contains_key(n)
            && m[n] > 1 {
            m[n]
        } else {
            1
        },
        (forall|k: int| i <= k < v.len() ==> !((#[trigger] v[k]).readable && v[k].name@ == n))
            ==> raised(m, v, i).contains_key(n) == m.contains_key(n) && (m.contains_key(n)
            ==> raised(m, v, i)[n] == m[n]),
    decreases v.len() - i,
{
    if i < v.len() {
        if v[i].readable {
            let x = v[i].name@;
            let next = m.insert(
                x,
                if m.contains_key(x) && m[x] > 1 {
                    m[x]
                } else {
                    1u64
                },
            );
            law_repair_raises_the_readable(next, v, i + 1, n);
            if x == n {
                if exists|k: int| i + 1 <= k < v.len() && (#[trigger] v[k]).readable && v[k].name@
                    == n {
                } else {
                    assert forall|k: int| i + 1 <= k < v.len() implies !((#[trigger] v[k]).readable
                        && v[k].name@ == n) by {}
                }
            } else {
                if exists|k: int| i <= k < v.len() && (#[trigger] v[k]).readable && v[k].name@ == n {
                    let k = choose|k: int|
                        i <= k < v.len() && (#[trigger] v[k]).readable && v[k].name@ == n;
                    assert(k > i);
                }
            }
        } else {
            law_repair_raises_the_readable(m, v, i + 1, n);
            if exists|k: int| i <= k < v.len() && (#[trigger] v[k]).readable && v[k].name@ == n {
                let k = choose|k: int|
                    i <= k < v.len() && (#[trigger] v[k]).readable && v[k].name@ == n;
                assert(k > i);
            }
        }
    }
}

/// Healing a template keeps what it holds, in front of what it lacked.
pub proof fn law_healing_keeps_the_template(existing: Seq<char>)
    ensures
        existing.is_prefix_of(healed_template(existing)),
        is_complete_template(existing) && (existing.len() == 0 || existing.last() == '\n')
            ==> healed_template(existing) == existing,
{
    let h = healed_template(existing);
    assert(h.take(existing.len() as int) =~= existing);
    if is_complete_template(existing) {
        assert(h =~= template_base(existing));
    }
}

/// The secrets that could not be read are exactly those that are named as
/// skipped.
pub proof fn law_unreadable_secrets_are_skipped(v: Seq<Scanned>, n: Seq<char>)
    ensures
        unreadable_names(v).contains(n) <==> exists|i: int|
            0 <= i < v.len() && !(#[trigger] v[i]).readable && v[i].name@ == n,
    decreases v.len(),
{
    if v.len() > 0 {
        let front = v.drop_last();
        law_unreadable_secrets_are_skipped(front, n);
        let rest = unreadable_names(front);
        let all = unreadable_names(v);
        if rest.contains(n) {
            let k = choose|k: int| 0 <= k < rest.len() && rest[k] == n;
            assert(all[k] == n);
        }
        if all.contains(n) {
            let k = choose|k: int| 0 <= k < all.len() && all[k] == n;
            if k < rest.len() {
                assert(rest[k] == n);
                let i = choose|i: int|
                    0 <= i < front.len() && !(#[trigger] front[i]).readable && front[i].name@ == n;
                assert(v[i] == front[i]);
            } else {
                assert(!v[v.len() - 1].readable);
            }
        }
        if exists|i: int| 0 <= i < v.len() && !(#[trigger] v[i]).readable && v[i].name@ == n {
            let i = choose|i: int|
                0 <= i < v.len() && !(#[trigger] v[i]).readable && v[i].name@ == n;
            if i < front.len() {
                assert(front[i] == v[i]);
            } else {
                assert(all.last() == n);
                assert(all.contains(n));
            }
        }
    }
}

/// The verdict is good only without failures and warnings, and names failures
/// before anything else.
pub proof fn law_verdicts_name_failures_first(r: DoctorReport)
    ensures
        r.failures == 0 && r.warnings == 0 ==> verdict(r, false) == "doctor: all checks passed\n"@,
        r.failures == 0 && r.warnings > 0 ==> verdict(r, false) == "doctor: 0 failures, "@ + decimal(
            r.warnings as int,
        ) + " warning(s) — system is operational\n"@,
        r.failures > 0 ==> ("doctor: "@ + decimal(r.failures as int)).is_prefix_of(
            verdict(r, false),
        ),
{
    let v = verdict(r, false);
    assert(Seq::<char>::empty() + "doctor: all checks passed\n"@ =~= "doctor: all checks passed\n"@);
    if r.failures > 0 {
        let head = "doctor: "@ + decimal(r.failures as int);
        assert(v.take(head.len() as int) =~= head);
    } else if r.warnings > 0 {
        assert(v =~= "doctor: 0 failures, "@ + decimal(r.warnings as int)
            + " warning(s) — system is operational\n"@);
    }
}

/// The report has a field for each thing that was looked at, with what was found;
/// the names of skipped secrets are shown only as a secret.
pub proof fn law_reports_show_what_was_found(r: DoctorReport)
    ensures
        ({
            let f = report_fields(r);
            &&& f.len() >= 9
            &&& f[2].key == "identity"@ && f[2].value == if r.identity_ok {
                "ok"@
            } else {
                "missing"@
            }
            &&& f[3].key == "recipients"@ && (if r.recipients_ok {
                "ok"@
            } else {
                "missing"@
            }).is_prefix_of(f[3].value)
            &&& f[4].key == "git_template_healed"@ && f[4].value == if r.git_template_healed {
                "true"@
            } else {
                "false"@
            }
            &&& f[5].key == "journal"@ && f[5].value == "+"@ + decimal(r.journal_forwarded as int)
                + "/-"@ + decimal(r.journal_rolled_back as int)
            &&& f[7].key == "sample_decrypt"@ && f[7].value == "ok="@ + decimal(
                r.sample_decrypt_ok as int,
            ) + " fail="@ + decimal(r.sample_decrypt_fail as int)
            &&& f[8].key == "orphan_tmp"@ && f[8].value == decimal(r.orphan_tmp as int)
            &&& forall|i: int|
                0 <= i < r.notes@.len() ==> (#[trigger] f[9 + i]).value == r.notes@[i]@ && f[9
                    + i].key == "note"@ + decimal(i)
            &&& r.repair_skipped@.len() > 0 ==> f.last().key == "skipped"@ && f.last().secret
            &&& r.repair_skipped@.len() == 0 ==> f.len() == 9 + r.notes@.len()
            &&& forall|i: int| 0 <= i < f.len() && (#[trigger] f[i]).secret ==> f[i].key
                == "skipped"@
        }),
{
    let f = report_fields(r);
    let head = ok_text(r.recipients_ok);
    assert(f[3].value.take(head.len() as int) =~= head);
}

/// The census shows each count behind its own name.
pub proof fn law_censuses_show_each_count(r: DoctorReport)
    ensures
        report_fields(r)[6].key == "generations"@,
        shows(report_fields(r)[6].value, "sealed="@, decimal(r.generation_census.sealed as int)),
        shows(report_fields(r)[6].value, " lag="@, decimal(r.generation_census.lag as int)),
        shows(report_fields(r)[6].value, " stale="@, decimal(r.generation_census.stale as int)),
        shows(report_fields(r)[6].value, " missing="@, decimal(r.generation_census.missing as int)),
        shows(
            report_fields(r)[6].value,
            " tombstones="@,
            decimal(r.generation_census.tombstones as int),
        ),
        shows(
            report_fields(r)[6].value,
            " fully_protected="@,
            decimal(r.generation_census.fully_protected as int),
        ),
        shows(
            report_fields(r)[6].value,
            " wallet_keys="@,
            decimal(r.generation_census.wallet_keys as int),
        ),
        shows(
            report_fields(r)[1].value,
            "mlock="@,
            if r.hardening.mlock_available {
                "true"@
            } else {
                "false"@
            },
        ),
        shows(
            report_fields(r)[1].value,
            " dumpable_disabled="@,
            if r.hardening.dumpable_disabled {
                "true"@
            } else {
                "false"@
            },
        ),
        shows(
            report_fields(r)[1].value,
            " umask_strict="@,
            if r.hardening.umask_strict {
                "true"@
            } else {
                "false"@
            },
        ),
{
    let c = r.generation_census;
    let t = report_fields(r)[6].value;
    let d0 = decimal(c.sealed as int);
    let d1 = decimal(c.lag as int);
    let d2 = decimal(c.stale as int);
    let d3 = decimal(c.missing as int);
    let d4 = decimal(c.tombstones as int);
    let d5 = decimal(c.fully_protected as int);
    let d6 = decimal(c.wallet_keys as int);
    assert(shows(t, "sealed="@, d0)) by {
        lemma_shows_first("sealed="@, d0);
        let u = "sealed="@ + d0;
        lemma_shows_more4(u, " lag="@, d1, " stale="@, d2, "sealed="@, d0);
        let u = u + " lag="@ + d1 + " stale="@ + d2;
        lemma_shows_more4(u, " missing="@, d3, " tombstones="@, d4, "sealed="@, d0);
        let u = u + " missing="@ + d3 + " tombstones="@ + d4;
        lemma_shows_more4(u, " fully_protected="@, d5, " wallet_keys="@, d6, "sealed="@, d0);
    }
    assert(shows(t, " lag="@, d1)) by {
        let a = "sealed="@ + d0;
        lemma_shows_last(a, " lag="@, d1);
        let u = a + " lag="@ + d1;
        lemma_shows_more4(u, " stale="@, d2, " missing="@, d3, " lag="@, d1);
        let u = u + " stale="@ + d2 + " missing="@ + d3;
        lemma_shows_more4(u, " tombstones="@, d4, " fully_protected="@, d5, " lag="@, d1);
        let u = u + " tombstones="@ + d4 + " fully_protected="@ + d5;
        lemma_shows_more(u, " wallet_keys="@, " lag="@, d1);
        let u = u + " wallet_keys="@;
        lemma_shows_more(u, d6, " lag="@, d1);
    }
    assert(shows(t, " stale="@, d2)) by {
        let a = "sealed="@ + d0 + " lag="@ + d1;
        lemma_shows_last(a, " stale="@, d2);
        let u = a + " stale="@ + d2;
        lemma_shows_more4(u, " missing="@, d3, " tombstones="@, d4, " stale="@, d2);
        let u = u + " missing="@ + d3 + " tombstones="@ + d4;
        lemma_shows_more4(u, " fully_protected="@, d5, " wallet_keys="@, d6, " stale="@, d2);
    }
    assert(shows(t, " missing="@, d3)) by {
        let a = "sealed="@ + d0 + " lag="@ + d1 + " stale="@ + d2;
        lemma_shows_last(a, " missing="@, d3);
        let u = a + " missing="@ + d3;
        lemma_shows_more4(u, " tombstones="@, d4, " fully_protected="@, d5, " missing="@, d3);
        let u = u + " tombstones="@ + d4 + " fully_protected="@ + d5;
        lemma_shows_more(u, " wallet_keys="@, " missing="@, d3);
        let u = u + " wallet_keys="@;
        lemma_shows_more(u, d6, " missing="@, d3);
    }
    assert(shows(t, " tombstones="@, d4)) by {
        let a = "sealed="@ + d0 + " lag="@ + d1 + " stale="@ + d2 + " missing="@ + d3;
        lemma_shows_last(a, " tombstones="@, d4);
        let u = a + " tombstones="@ + d4;
        lemma_shows_more4(u, " fully_protected="@, d5, " wallet_keys="@, d6, " tombstones="@, d4);
    }
    assert(shows(t, " fully_protected="@, d5)) by {
        let a = "sealed="@ + d0 + " lag="@ + d1 + " stale="@ + d2 + " missing="@ + d3
            + " tombstones="@ + d4;
        lemma_shows_last(a, " fully_protected="@, d5);
        let u = a + " fully_protected="@ + d5;
        lemma_shows_more(u, " wallet_keys="@, " fully_protected="@, d5);
        let u = u + " wallet_keys="@;
        lemma_shows_more(u, d6, " fully_protected="@, d5);
    }
    assert(shows(t, " wallet_keys="@, d6)) by {
        let a = "sealed="@ + d0 + " lag="@ + d1 + " stale="@ + d2 + " missing="@ + d3
            + " tombstones="@ + d4 + " fully_protected="@ + d5;
        lemma_shows_last(a, " wallet_keys="@, d6);
        let u = a + " wallet_keys="@ + d6;
    }
    let h = r.hardening;
    let t = report_fields(r)[1].value;
    let b0 = bool_text(h.mlock_available);
    let b1 = bool_text(h.dumpable_disabled);
    let b2 = bool_text(h.umask_strict);
    assert(shows(t, "mlock="@, b0)) by {
        lemma_shows_first("mlock="@, b0);
        let u = "mlock="@ + b0;
        lemma_shows_more4(u, " dumpable_disabled="@, b1, " umask_strict="@, b2, "mlock="@, b0);
    }
    assert(shows(t, " dumpable_disabled="@, b1)) by {
        let a = "mlock="@ + b0;
        lemma_shows_last(a, " dumpable_disabled="@, b1);
        let u = a + " dumpable_disabled="@ + b1;
        lemma_shows_more(u, " umask_strict="@, " dumpable_disabled="@, b1);
        let u = u + " umask_strict="@;
        lemma_shows_more(u, b2, " dumpable_disabled="@, b1);
    }
    assert(shows(t, " umask_strict="@, b2)) by {
        let a = "mlock="@ + b0 + " dumpable_disabled="@ + b1;
        lemma_shows_last(a, " umask_strict="@, b2);
        let u = a + " umask_strict="@ + b2;
    }
}

/// What is read of the value in a contract is the value itself, each part under its
/// own name.
pub proof fn law_tally_views_keep_each_value(x: Tally)
    ensures
        x@.failures == x.failures as int,
        x@.warnings == x.warnings as int,
        x@.notes == texts(x.notes@),
{
}

} // verus!
