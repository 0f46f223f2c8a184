//! `history`: the versions of an item.
use vstd::prelude::*;

use crate::commands::git_cmd::Commit;
use crate::commands::totp::json_text;
use crate::error::{invalid, CliError, CliErrorView};
use crate::json::{
    empty_object, json_members, json_signed, setting_value, signed_value, with_member, Setting,
};
use crate::text::{dec_signed, short_text, shortened, signed_decimal, texts, trim, trimmed};
use crate::time::{utc_text, utc_text_of};

verus! {

/// The date of a commit in UTC; a time out of range is shown as it is.
pub open spec fn date_text(ts: i64) -> Seq<char> {
    match utc_text_of(ts, "%Y-%m-%d %H:%M:%S"@) {
        Some(s) => s,
        None => "t:"@ + signed_decimal(ts as int),
    }
}

/// The date of a commit in UTC.
pub fn format_timestamp(ts: i64) -> (r: String)
    ensures
        r@ == date_text(ts),
{
    match utc_text(ts, "%Y-%m-%d %H:%M:%S") {
        Some(s) => s,
        None => "t:".to_owned().concat(dec_signed(ts).as_str()),
    }
}

/// The entry is not below the store.
pub fn outside_store() -> (e: CliError)
    ensures
        e@ == CliErrorView::InvalidArgs("entry path is outside store root"@),
{
    invalid("entry path is outside store root")
}

/// A version as it is listed.
pub open spec fn version_line(c: Commit) -> Seq<char> {
    short_text(c.oid@, 7) + "  "@ + date_text(c.time) + "  "@ + c.author@ + "  "@ + trim(
        c.message@,
    )
}

/// The first versions, at most `limit`.
pub open spec fn limited(n: nat, limit: usize) -> int {
    if n < limit {
        n as int
    } else {
        limit as int
    }
}

/// The lines of the first versions.
pub open spec fn version_lines(v: Seq<Commit>, limit: usize) -> Seq<Seq<char>> {
    Seq::new(limited(v.len(), limit) as nat, |i: int| version_line(v[i]))
}

/// The versions as they are listed, newest first as they come, at most
/// `limit`.
pub fn list(commits: &Vec<Commit>, limit: usize) -> (r: Vec<String>)
    ensures
        texts(r@) == version_lines(commits@, limit),
{
    let n: usize = if commits.len() < limit {
        commits.len()
    } else {
        limit
    };
    let mut out: Vec<String> = Vec::new();
    let mut i: usize = 0;
    while i < n
        invariant
            i <= n <= commits@.len(),
            n == limited(commits@.len(), limit),
            texts(out@) =~= version_lines(commits@, limit).take(i as int),
        decreases n - i,
    {
        let c = &commits[i];
        let ghost before = out@;
        out.push(
            shortened(c.oid.as_str(), 7).concat("  ").concat(
                format_timestamp(c.time).as_str(),
            ).concat("  ").concat(c.author.as_str()).concat("  ").concat(
                trimmed(c.message.as_str()).as_str(),
            ),
        );
        assert(texts(out@) =~= texts(before).push(version_lines(commits@, limit)[i as int]));
        i = i + 1;
    }
    assert(version_lines(commits@, limit).take(n as int) =~= version_lines(commits@, limit));
    out
}

/// What is printed of the history of `name` in front of the versions: that
/// there is none, or that old passwords stay encrypted.
pub fn note(name: &str, found: usize, password: bool) -> (r: Option<String>)
    ensures
        crate::text::opt_text(r) == if found == 0 {
            Some("no history found for '"@ + name@ + "'"@)
        } else if password {
            Some(
                "note: historical passwords are encrypted and cannot be displayed individually\n"@,
            )
        } else {
            None
        },
{
    if found == 0 {
        Some("no history found for '".to_owned().concat(name).concat("'"))
    } else if password {
        Some(
            "note: historical passwords are encrypted and cannot be displayed individually\n".to_owned(),
        )
    } else {
        None
    }
}

/// The members of the document that shows a version.
pub open spec fn version_members(c: Commit, password: bool) -> Map<Seq<char>, serde_json::Value> {
    let base = Map::<Seq<char>, serde_json::Value>::empty().insert(
        "commit"@,
        json_text(c.oid@),
    ).insert("short_commit"@, json_text(short_text(c.oid@, 7))).insert(
        "author"@,
        json_text(c.author@),
    ).insert("time"@, json_signed(c.time)).insert("date"@, json_text(date_text(c.time))).insert(
        "message"@,
        json_text(trim(c.message@)),
    );
    if password {
        base.insert(
            "password"@,
            json_text("(encrypted — cannot decrypt historical versions)"@),
        )
    } else {
        base
    }
}

/// The document that shows a version.
pub fn version_document(c: &Commit, password: bool) -> (r: serde_json::Value)
    ensures
        json_members(r) == Some(version_members(*c, password)),
{
    let doc = empty_object();
    let doc = with_member(doc, "commit", setting_value(Setting::Text(c.oid.clone())));
    let doc = with_member(
        doc,
        "short_commit",
        setting_value(Setting::Text(shortened(c.oid.as_str(), 7))),
    );
    let doc = with_member(doc, "author", setting_value(Setting::Text(c.author.clone())));
    let doc = with_member(doc, "time", signed_value(c.time));
    let doc = with_member(doc, "date", setting_value(Setting::Text(format_timestamp(c.time))));
    let doc = with_member(
        doc,
        "message",
        setting_value(Setting::Text(trimmed(c.message.as_str()))),
    );
    if password {
        with_member(
            doc,
            "password",
            setting_value(
                Setting::Text("(encrypted — cannot decrypt historical versions)".to_owned()),
            ),
        )
    } else {
        doc
    }
}

/// The documents that show the versions, newest first as they come, at most
/// `limit`.
pub fn documents(commits: &Vec<Commit>, limit: usize, password: bool) -> (r: Vec<serde_json::Value>)
    ensures
        r@.len() == limited(commits@.len(), limit),
        forall|i: int|
            0 <= i < r@.len() ==> json_members(#[trigger] r@[i]) == Some(
                version_members(commits@[i], password),
            ),
{
    let n: usize = if commits.len() < limit {
        commits.len()
    } else {
        limit
    };
    let mut out: Vec<serde_json::Value> = Vec::new();
    let mut i: usize = 0;
    while i < n
        invariant
            i <= n <= commits@.len(),
            n == limited(commits@.len(), limit),
            out@.len() == i,
            forall|j: int|
                0 <= j < i ==> json_members(#[trigger] out@[j]) == Some(
                    version_members(commits@[j], password),
                ),
        decreases n - i,
    {
        out.push(version_document(&commits[i], password));
        i = i + 1;
    }
    out
}

/// The document of a version shows each value under its own name; a password is
/// never shown, only that it cannot be.
pub proof fn law_versions_show_each_value(c: Commit, password: bool)
    ensures
        ({
            let m = version_members(c, password);
            &&& m["commit"@] == json_text(c.oid@)
            &&& m["short_commit"@] == json_text(short_text(c.oid@, 7))
            &&& m["author"@] == json_text(c.author@)
            &&& m["time"@] == json_signed(c.time)
            &&& m["date"@] == json_text(date_text(c.time))
            &&& m["message"@] == json_text(trim(c.message@))
            &&& m.contains_key("password"@) <==> password
        }),
{
    reveal_strlit("commit");
    reveal_strlit("short_commit");
    reveal_strlit("author");
    reveal_strlit("time");
    reveal_strlit("date");
    reveal_strlit("message");
    reveal_strlit("password");
    assert("commit"@.len() == 6 && "commit"@[0] == 'c' && "short_commit"@.len() == 12
        && "short_commit"@[0] == 's' && "author"@.len() == 6 && "author"@[0] == 'a'
        && "time"@.len() == 4 && "time"@[0] == 't' && "date"@.len() == 4 && "date"@[0] == 'd'
        && "message"@.len() == 7 && "message"@[0] == 'm' && "password"@.len() == 8
        && "password"@[0] == 'p');
}

/// As many versions are listed as there are, up to the limit, in both forms.
pub proof fn law_listings_are_limited(v: Seq<Commit>, limit: usize)
    ensures
        version_lines(v, limit).len() == limited(v.len(), limit),
        limited(v.len(), limit) <= limit,
        limited(v.len(), limit) <= v.len(),
        limited(v.len(), limit) == limit || limited(v.len(), limit) == v.len(),
        forall|i: int|
            0 <= i < version_lines(v, limit).len() ==> #[trigger] version_lines(v, limit)[i]
                == short_text(v[i].oid@, 7) + "  "@ + date_text(v[i].time) + "  "@ + v[i].author@
                + "  "@ + trim(v[i].message@),
{
}

/// A time is shown as a date and a time of day; one that has none is shown as its
/// number.
pub proof fn law_times_are_shown(ts: i64)
    ensures
        utc_text_of(ts, "%Y-%m-%d %H:%M:%S"@) matches Some(s) ==> date_text(ts) == s,
        utc_text_of(ts, "%Y-%m-%d %H:%M:%S"@) is None ==> date_text(ts) == "t:"@ + signed_decimal(
            ts as int,
        ),
{
}

} // verus!
