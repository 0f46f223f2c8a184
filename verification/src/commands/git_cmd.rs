//! `git`: the version control of the state directory.
use vstd::prelude::*;

use crate::text::{
    law_padding_adds_spaces_only, lemma_shows, opt_text, pad_right, padded_right, short_text,
    shortened, shows, texts, trim, trimmed,
};

verus! {

/// What `git init` does first.
#[derive(Debug)]
pub struct InitPlan {
    /// A repository is created; otherwise there is one already.
    pub create: bool,
    /// What is printed after that.
    pub message: String,
    /// The remote to set, and what is printed after that.
    pub remote: Option<RemotePlan>,
}

/// A remote to set.
#[derive(Debug)]
pub struct RemotePlan {
    pub url: String,
    pub message: String,
}

/// What `git init` does at `root`: a repository that exists is kept, and a
/// remote is set whether it existed or not.
pub fn init(root: &str, present: bool, remote: &Option<String>) -> (p: InitPlan)
    ensures
        p.create == !present,
        p.message@ == if present {
            "git: repository already exists at "@ + root@
        } else {
            "git: initialized repository at "@ + root@
        },
        match *remote {
            None => p.remote is None,
            Some(url) => p.remote matches Some(r) && r.url@ == url@ && r.message@
                == "git: set remote 'origin' -> "@ + url@,
        },
{
    let message = if present {
        "git: repository already exists at ".to_owned().concat(root)
    } else {
        "git: initialized repository at ".to_owned().concat(root)
    };
    let remote: Option<RemotePlan> = match remote {
        None => None,
        Some(url) => Some(
            RemotePlan {
                url: url.clone(),
                message: "git: set remote 'origin' -> ".to_owned().concat(url.as_str()),
            },
        ),
    };
    InitPlan { create: !present, message, remote }
}

/// The file of an item in the repository.
pub fn secret_file(name: &str) -> (r: String)
    ensures
        r@ == "secrets/"@ + name@ + ".age"@,
{
    "secrets/".to_owned().concat(name).concat(".age")
}

/// A commit.
#[derive(Debug)]
pub struct Commit {
    pub oid: String,
    pub author: String,
    pub message: String,
    /// Seconds since the Unix epoch.
    pub time: i64,
}

/// A commit as it is listed: its short name, its author and its message.
pub open spec fn commit_line(c: Commit) -> Seq<char> {
    short_text(c.oid@, 7) + "  "@ + c.author@ + "  "@ + trim(c.message@)
}

/// The lines of commits.
pub open spec fn commit_lines(v: Seq<Commit>) -> Seq<Seq<char>> {
    Seq::new(v.len(), |i: int| commit_line(v[i]))
}

/// What `git log` prints.
pub fn log(name: &Option<String>, commits: &Vec<Commit>) -> (r: Vec<String>)
    ensures
        texts(r@) == if commits@.len() > 0 {
            commit_lines(commits@)
        } else {
            match opt_text(*name) {
                Some(n) => seq!["git: no history for '"@ + n + "'"@],
                None => seq!["git: no commits yet"@],
            }
        },
{
    let mut out: Vec<String> = Vec::new();
    if commits.len() == 0 {
        let line = match name {
            Some(n) => "git: no history for '".to_owned().concat(n.as_str()).concat("'"),
            None => "git: no commits yet".to_owned(),
        };
        let ghost text = line@;
        out.push(line);
        assert(texts(out@) =~= seq![text]);
        return out;
    }
    let mut i: usize = 0;
    while i < commits.len()
        invariant
            i <= commits@.len(),
            texts(out@) =~= commit_lines(commits@).take(i as int),
        decreases commits@.len() - i,
    {
        let c = &commits[i];
        let ghost before = out@;
        out.push(
            shortened(c.oid.as_str(), 7).concat("  ").concat(c.author.as_str()).concat("  ").concat(
                trimmed(c.message.as_str()).as_str(),
            ),
        );
        assert(texts(out@) =~= texts(before).push(commit_lines(commits@)[i as int]));
        i = i + 1;
    }
    assert(commit_lines(commits@).take(i as int) =~= commit_lines(commits@));
    out
}

/// A changed file.
#[derive(Debug)]
pub struct StatusEntry {
    pub status: String,
    pub path: String,
}

/// The lines of changed files.
pub open spec fn status_lines(v: Seq<StatusEntry>) -> Seq<Seq<char>> {
    Seq::new(v.len(), |i: int| pad_right(v[i].status@, 10) + " "@ + v[i].path@)
}

/// What `git status` prints.
pub fn status(entries: &Vec<StatusEntry>) -> (r: Vec<String>)
    ensures
        texts(r@) == if entries@.len() == 0 {
            seq!["git: working tree clean"@]
        } else {
            status_lines(entries@)
        },
{
    let mut out: Vec<String> = Vec::new();
    if entries.len() == 0 {
        out.push("git: working tree clean".to_owned());
        assert(texts(out@) =~= seq!["git: working tree clean"@]);
        return out;
    }
    let mut i: usize = 0;
    while i < entries.len()
        invariant
            i <= entries@.len(),
            texts(out@) =~= status_lines(entries@).take(i as int),
        decreases entries@.len() - i,
    {
        let e = &entries[i];
        let ghost before = out@;
        out.push(padded_right(e.status.as_str(), 10).concat(" ").concat(e.path.as_str()));
        assert(texts(out@) =~= texts(before).push(status_lines(entries@)[i as int]));
        i = i + 1;
    }
    assert(status_lines(entries@).take(i as int) =~= status_lines(entries@));
    out
}

/// A commit is shown by the first seven characters of its name, its author and its
/// message, a change by its status and its path, each on a line of its own.
pub proof fn law_commits_and_changes_are_shown(v: Seq<Commit>, w: Seq<StatusEntry>, i: int, j: int)
    requires
        0 <= i < v.len(),
        0 <= j < w.len(),
    ensures
        commit_lines(v).len() == v.len(),
        short_text(v[i].oid@, 7).is_prefix_of(commit_lines(v)[i]),
        shows(commit_lines(v)[i], "  "@, v[i].author@),
        ("  "@ + trim(v[i].message@)).is_suffix_of(commit_lines(v)[i]),
        status_lines(w).len() == w.len(),
        w[j].status@.is_prefix_of(status_lines(w)[j]),
        (" "@ + w[j].path@).is_suffix_of(status_lines(w)[j]),
{
    let t = commit_lines(v)[i];
    let a = short_text(v[i].oid@, 7);
    let m = trim(v[i].message@);
    assert(t.take(a.len() as int) =~= a);
    assert(t =~= a + "  "@ + v[i].author@ + ("  "@ + m));
    lemma_shows(a, "  "@, v[i].author@, "  "@ + m);
    let e = "  "@ + m;
    assert(t.subrange(t.len() - e.len(), t.len() as int) =~= e);
    let u = status_lines(w)[j];
    law_padding_adds_spaces_only(w[j].status@, 10);
    let s = w[j].status@;
    assert(u.take(s.len() as int) =~= pad_right(s, 10).take(s.len() as int));
    let p = " "@ + w[j].path@;
    assert(u.subrange(u.len() - p.len(), u.len() as int) =~= p);
}

} // verus!
