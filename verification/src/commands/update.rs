//! `update`: fetching a newer release.
use vstd::prelude::*;

use crate::error::{invalid, invalid_args, CliError, CliErrorView};
use crate::order::{comes_before, text_lt};
use crate::text::{
    all_digits, chars_of, cut, decimal, digit, find_from, index_or_len, is_digit,
    law_decimals_are_read_back, law_numbers_are_digits, law_trimming_takes_white_space_off,
    lemma_decimal_is_digits, lemma_index_or_len, opt_text, parse_u64, parsed, position_from, same,
    split, strip_prefix, text_range, texts, trim, trim_start, trimmed, without_prefix,
};

verus! {

// ---------------------------------------------------------------------------
// Versions
// ---------------------------------------------------------------------------

/// How many digits a text begins with.
pub open spec fn leading_digits(s: Seq<char>) -> int
    decreases s.len(),
{
    if s.len() > 0 && is_digit(s[0]) {
        1 + leading_digits(s.skip(1))
    } else {
        0
    }
}

/// A component of a version: its number, and what follows it. A number that
/// does not fit counts as zero.
pub open spec fn component(part: Seq<char>) -> (int, Seq<char>) {
    let k = leading_digits(part);
    (
        match parsed(part.take(k), u64::MAX as int) {
            Some(n) => n,
            None => 0,
        },
        part.skip(k),
    )
}

/// A version without a leading `v` and without white space around it.
pub open spec fn bare_version(v: Seq<char>) -> Seq<char> {
    trim(
        match strip_prefix(v, "v"@) {
            Some(t) => t,
            None => v,
        },
    )
}

/// A component at a position; one that is missing is zero.
pub open spec fn component_at(parts: Seq<Seq<char>>, i: int) -> (int, Seq<char>) {
    if 0 <= i < parts.len() {
        component(parts[i])
    } else {
        (0, Seq::empty())
    }
}

/// The order of texts, as a sign.
pub open spec fn text_sign(a: Seq<char>, b: Seq<char>) -> int {
    if text_lt(a, b) {
        -1
    } else if text_lt(b, a) {
        1
    } else {
        0
    }
}

/// The order of two components, as a sign: by number, then a release above
/// what comes before it, then by what follows the number.
pub open spec fn component_sign(a: (int, Seq<char>), b: (int, Seq<char>)) -> int {
    if a.0 < b.0 {
        -1
    } else if a.0 > b.0 {
        1
    } else if a.1.len() == 0 && b.1.len() > 0 {
        1
    } else if a.1.len() > 0 && b.1.len() == 0 {
        -1
    } else {
        text_sign(a.1, b.1)
    }
}

/// The order of the components from position `i` on, as a sign.
pub open spec fn parts_sign(a: Seq<Seq<char>>, b: Seq<Seq<char>>, i: int) -> int
    decreases a.len() + b.len() - i,
{
    if i >= a.len() && i >= b.len() {
        0
    } else {
        let s = component_sign(component_at(a, i), component_at(b, i));
        if s != 0 {
            s
        } else {
            parts_sign(a, b, i + 1)
        }
    }
}

/// The order of two versions, as a sign.
pub open spec fn version_sign(a: Seq<char>, b: Seq<char>) -> int {
    parts_sign(split(bare_version(a), '.'), split(bare_version(b), '.'), 0)
}

proof fn lemma_leading_digits(s: Seq<char>)
    ensures
        0 <= leading_digits(s) <= s.len(),
    decreases s.len(),
{
    if s.len() > 0 && is_digit(s[0]) {
        lemma_leading_digits(s.skip(1));
    }
}

fn parse_component(part: &str) -> (r: (u64, String))
    ensures
        (r.0 as int, r.1@) == component(part@),
{
    let v = chars_of(part);
    let mut k: usize = 0;
    assert(v@.skip(0) =~= v@);
    while k < v.len() && digit(v[k])
        invariant
            k <= v@.len(),
            leading_digits(v@) == k + leading_digits(v@.skip(k as int)),
        decreases v@.len() - k,
    {
        assert(v@.skip(k as int).skip(1) =~= v@.skip(k + 1));
        k = k + 1;
    }
    let head = text_range(&v, 0, k);
    let rest = text_range(&v, k, v.len());
    assert(head@ =~= part@.take(k as int));
    assert(rest@ =~= part@.skip(k as int));
    let n: u64 = match parse_u64(head.as_str()) {
        Some(n) => n,
        None => 0,
    };
    (n, rest)
}

fn part_or_zero(parts: &Vec<String>, i: usize) -> (r: (u64, String))
    ensures
        (r.0 as int, r.1@) == component_at(texts(parts@), i as int),
{
    if i < parts.len() {
        parse_component(parts[i].as_str())
    } else {
        (0, String::new())
    }
}

fn order_components(a: &(u64, String), b: &(u64, String)) -> (r: i8)
    ensures
        r == component_sign((a.0 as int, a.1@), (b.0 as int, b.1@)),
{
    if a.0 < b.0 {
        return -1;
    }
    if a.0 > b.0 {
        return 1;
    }
    let ea = a.1.as_str().unicode_len() == 0;
    let eb = b.1.as_str().unicode_len() == 0;
    if ea && !eb {
        return 1;
    }
    if !ea && eb {
        return -1;
    }
    if comes_before(a.1.as_str(), b.1.as_str()) {
        -1
    } else if comes_before(b.1.as_str(), a.1.as_str()) {
        1
    } else {
        0
    }
}

fn bare(v: &str) -> (r: String)
    ensures
        r@ == bare_version(v@),
{
    match without_prefix(v, "v") {
        Some(t) => trimmed(t.as_str()),
        None => trimmed(v),
    }
}

fn order_versions(a: &str, b: &str) -> (r: i8)
    ensures
        r == version_sign(a@, b@),
{
    let pa = cut(bare(a).as_str(), '.');
    let pb = cut(bare(b).as_str(), '.');
    let n: usize = if pa.len() < pb.len() {
        pb.len()
    } else {
        pa.len()
    };
    let mut i: usize = 0;
    while i < n
        invariant
            i <= n,
            n == if pa@.len() < pb@.len() {
                pb@.len()
            } else {
                pa@.len()
            },
            parts_sign(texts(pa@), texts(pb@), 0) == parts_sign(
                texts(pa@),
                texts(pb@),
                i as int,
            ),
            version_sign(a@, b@) == parts_sign(texts(pa@), texts(pb@), 0),
        decreases n - i,
    {
        let s = order_components(&part_or_zero(&pa, i), &part_or_zero(&pb, i));
        if s != 0 {
            return s;
        }
        i = i + 1;
    }
    0
}

/// The order of two versions. Components are compared as numbers, a missing
/// one is zero, and a pre-release comes before its release.
pub fn compare_versions_numeric(a: &str, b: &str) -> (r: core::cmp::Ordering)
    ensures
        match r {
            core::cmp::Ordering::Less => version_sign(a@, b@) < 0,
            core::cmp::Ordering::Equal => version_sign(a@, b@) == 0,
            core::cmp::Ordering::Greater => version_sign(a@, b@) > 0,
        },
{
    let s = order_versions(a, b);
    if s < 0 {
        core::cmp::Ordering::Less
    } else if s == 0 {
        core::cmp::Ordering::Equal
    } else {
        core::cmp::Ordering::Greater
    }
}

/// Whether `latest` is strictly newer than `current`.
pub fn is_newer_version(latest: &str, current: &str) -> (r: bool)
    ensures
        r == (version_sign(latest@, current@) > 0),
{
    order_versions(latest, current) > 0
}

// ---------------------------------------------------------------------------
// The release
// ---------------------------------------------------------------------------

/// `s` without a character in front.
pub open spec fn behind(s: Seq<char>, c: char) -> Option<Seq<char>> {
    if s.len() > 0 && s[0] == c {
        Some(s.skip(1))
    } else {
        None
    }
}

/// The text up to the first `"`.
pub open spec fn up_to_quote(s: Seq<char>) -> Option<Seq<char>> {
    match find_from(s, seq!['"'], 0) {
        Some(i) => Some(s.take(i)),
        None => None,
    }
}

/// The text of a key behind its name: a colon, white space, and the text in
/// quotes.
pub open spec fn value_behind(rest: Seq<char>) -> Option<Seq<char>> {
    match behind(trim_start(rest), ':') {
        Some(t) => match behind(trim_start(t), '"') {
            Some(u) => up_to_quote(u),
            None => None,
        },
        None => None,
    }
}

/// The text that stands behind the first occurrence of a key in quotes.
pub open spec fn scanned(json: Seq<char>, key: Seq<char>) -> Option<Seq<char>> {
    let pattern = "\""@ + key + "\""@;
    match find_from(json, pattern, 0) {
        Some(i) => value_behind(json.skip(i + pattern.len())),
        None => None,
    }
}

/// The position behind white space.
fn skip_space(v: &Vec<char>, from: usize) -> (r: usize)
    requires
        from <= v@.len(),
    ensures
        from <= r <= v@.len(),
        v@.skip(r as int) == trim_start(v@.skip(from as int)),
{
    let mut i: usize = from;
    while i < v.len() && crate::text::space(v[i])
        invariant
            from <= i <= v@.len(),
            trim_start(v@.skip(i as int)) == trim_start(v@.skip(from as int)),
        decreases v@.len() - i,
    {
        assert(v@.skip(i as int).skip(1) =~= v@.skip(i + 1));
        i = i + 1;
    }
    i
}

/// The text that stands behind the first occurrence of a key in quotes.
pub fn extract_json_string(json: &str, key: &str) -> (r: Option<String>)
    ensures
        opt_text(r) == scanned(json@, key@),
{
    let v = chars_of(json);
    let n: usize = v.len();
    let pattern = "\"".to_owned().concat(key).concat("\"");
    let p = chars_of(pattern.as_str());
    let i: usize = match position_from(&v, &p, 0) {
        Some(i) => i,
        None => return None,
    };
    assert(i + p@.len() <= n);
    let a: usize = skip_space(&v, i + p.len());
    if a >= n || v[a] != ':' {
        return None;
    }
    assert(v@.skip(a as int).skip(1) =~= v@.skip(a + 1));
    let b: usize = skip_space(&v, a + 1);
    if b >= n || v[b] != '"' {
        return None;
    }
    assert(v@.skip(b as int).skip(1) =~= v@.skip(b + 1));
    let rest = chars_of(text_range(&v, b + 1, n).as_str());
    assert(rest@ =~= v@.skip(b + 1));
    let mut quote: Vec<char> = Vec::new();
    quote.push('"');
    assert(quote@ =~= seq!['"']);
    match position_from(&rest, &quote, 0) {
        Some(end) => {
            let r = text_range(&rest, 0, end);
            assert(r@ =~= rest@.take(end as int));
            Some(r)
        },
        None => None,
    }
}

/// The repository of the releases.
pub open spec fn repo() -> Seq<char> {
    "longcipher/onecipher"@
}

/// Where the latest release is asked for.
pub fn latest_url() -> (r: String)
    ensures
        r@ == "https://api.github.com/repos/"@ + repo() + "/releases/latest"@,
{
    "https://api.github.com/repos/".to_owned().concat("longcipher/onecipher").concat(
        "/releases/latest",
    )
}

/// The bytes of an answer, or that it could not be had: `curl` is asked first
/// and `wget` only when it fails.
pub fn fetch_url_bytes(url: &str, curl: Option<Vec<u8>>, wget: Option<Vec<u8>>) -> (r: Result<
    Vec<u8>,
    CliError,
>)
    ensures
        match (curl, wget) {
            (Some(b), _) => r matches Ok(x) && x@ == b@,
            (None, Some(b)) => r matches Ok(x) && x@ == b@,
            (None, None) => r matches Err(e) && e@ == CliErrorView::InvalidArgs(
                "failed to fetch "@ + url@
                    + " — install `curl` or `wget` and check your network connection"@,
            ),
        },
{
    match curl {
        Some(b) => Ok(b),
        None => match wget {
            Some(b) => Ok(b),
            None => Err(
                invalid_args(
                    "failed to fetch ".to_owned().concat(url).concat(
                        " — install `curl` or `wget` and check your network connection",
                    ),
                ),
            ),
        },
    }
}

/// The text of an answer; `decoded` is what decoding its bytes gave.
pub fn fetch_url_text(url: &str, decoded: Result<String, String>) -> (r: Result<String, CliError>)
    ensures
        match decoded {
            Ok(s) => r matches Ok(t) && t@ == s@,
            Err(m) => r matches Err(e) && e@ == CliErrorView::InvalidArgs(
                "non-UTF8 response from "@ + url@ + ": "@ + m@,
            ),
        },
{
    match decoded {
        Ok(s) => Ok(s),
        Err(m) => Err(
            invalid_args(
                "non-UTF8 response from ".to_owned().concat(url).concat(": ").concat(m.as_str()),
            ),
        ),
    }
}

/// The tag of the latest release, from the answer, if there was one.
pub fn get_latest_tag(body: &Option<String>) -> (r: Result<String, CliError>)
    ensures
        match opt_text(*body) {
            None => r matches Err(e) && e@ == CliErrorView::InvalidArgs(
                "failed to fetch latest release — check your network connection"@,
            ),
            Some(b) => match scanned(b, "tag_name"@) {
                Some(tag) => r matches Ok(t) && t@ == tag,
                None => r matches Err(e) && e@ == CliErrorView::InvalidArgs(
                    "no releases found — push a version tag (e.g. v0.2.0) to create one"@,
                ),
            },
        },
{
    match body {
        None => Err(invalid("failed to fetch latest release — check your network connection")),
        Some(b) => match extract_json_string(b.as_str(), "tag_name") {
            Some(t) => Ok(t),
            None => Err(
                invalid("no releases found — push a version tag (e.g. v0.2.0) to create one"),
            ),
        },
    }
}

/// The name of a platform in the names of the released files.
pub open spec fn platform_name(os: Seq<char>, arch: Seq<char>) -> Result<Seq<char>, CliErrorView> {
    if os != "linux"@ && os != "macos"@ {
        Err(CliErrorView::InvalidArgs("unsupported OS for prebuilt binaries"@))
    } else if arch != "x86_64"@ && arch != "aarch64"@ {
        Err(CliErrorView::InvalidArgs("unsupported architecture for prebuilt binaries"@))
    } else {
        Ok(
            (if os == "linux"@ {
                "linux"@
            } else {
                "darwin"@
            }) + "-"@ + arch,
        )
    }
}

/// The name of a platform in the names of the released files.
pub fn detect_platform(os: &str, arch: &str) -> (r: Result<String, CliError>)
    ensures
        crate::commands::text_result(r) == platform_name(os@, arch@),
{
    let name = if same(os, "linux") {
        "linux"
    } else if same(os, "macos") {
        "darwin"
    } else {
        return Err(invalid("unsupported OS for prebuilt binaries"));
    };
    if !same(arch, "x86_64") && !same(arch, "aarch64") {
        return Err(invalid("unsupported architecture for prebuilt binaries"));
    }
    Ok(name.to_owned().concat("-").concat(arch))
}

/// Where the released file of a platform is.
pub fn binary_url(tag: &str, platform: &str) -> (r: String)
    ensures
        r@ == "https://github.com/"@ + repo() + "/releases/download/"@ + tag@ + "/onecipher-"@
            + platform@,
{
    "https://github.com/".to_owned().concat("longcipher/onecipher").concat(
        "/releases/download/",
    ).concat(tag).concat("/onecipher-").concat(platform)
}

/// A released file that could not be had.
pub fn download_failed(url: &str) -> (e: CliError)
    ensures
        e@ == CliErrorView::InvalidArgs(
            "failed to download binary from "@ + url@
                + " — no prebuilt binary for your platform?"@,
        ),
{
    invalid_args(
        "failed to download binary from ".to_owned().concat(url).concat(
            " — no prebuilt binary for your platform?",
        ),
    )
}

/// Where the program is installed: the first of three variables that is set,
/// or below the home directory.
pub fn install_dir(
    onecipher: &Option<String>,
    ows: &Option<String>,
    lws: &Option<String>,
    home: &str,
) -> (r: String)
    ensures
        r@ == match (opt_text(*onecipher), opt_text(*ows), opt_text(*lws)) {
            (Some(d), _, _) => d,
            (None, Some(d), _) => d,
            (None, None, Some(d)) => d,
            (None, None, None) => crate::path::child_path(home@, ".onecipher/bin"@),
        },
{
    match onecipher {
        Some(d) => d.clone(),
        None => match ows {
            Some(d) => d.clone(),
            None => match lws {
                Some(d) => d.clone(),
                None => crate::path::child(home, ".onecipher/bin"),
            },
        },
    }
}

/// What an update does, and prints first.
#[derive(Debug)]
pub struct UpdatePlan {
    pub lines: Vec<String>,
    pub download: bool,
}

/// An update downloads when it is forced or the tag is newer.
pub open spec fn update_lines(tag: Seq<char>, current: Seq<char>, force: bool) -> Seq<Seq<char>> {
    seq![
        "installed: v"@ + current,
        "   latest: "@ + tag,
        if force {
            "Forcing update..."@
        } else if version_sign(release_of(tag), current) > 0 {
            "Downloading update..."@
        } else {
            "Already up to date."@
        },
    ]
}

/// The version of a tag.
pub open spec fn release_of(tag: Seq<char>) -> Seq<char> {
    match strip_prefix(tag, "v"@) {
        Some(t) => t,
        None => tag,
    }
}

/// What an update does, and prints first.
pub fn run(tag: &str, current: &str, force: bool) -> (p: UpdatePlan)
    ensures
        p.download == (force || version_sign(release_of(tag@), current@) > 0),
        texts(p.lines@) == update_lines(tag@, current@, force),
{
    let latest = match without_prefix(tag, "v") {
        Some(t) => t,
        None => tag.to_owned(),
    };
    let newer = is_newer_version(latest.as_str(), current);
    let mut lines: Vec<String> = Vec::new();
    lines.push("installed: v".to_owned().concat(current));
    lines.push("   latest: ".to_owned().concat(tag));
    if force {
        lines.push("Forcing update...".to_owned());
    } else if newer {
        lines.push("Downloading update...".to_owned());
    } else {
        lines.push("Already up to date.".to_owned());
    }
    assert(texts(lines@) =~= update_lines(tag@, current@, force));
    UpdatePlan { lines, download: force || newer }
}

// ---------------------------------------------------------------------------
// Language bindings
// ---------------------------------------------------------------------------

/// The language bindings that are updated along with the program.
#[derive(Clone, Copy, Debug, PartialEq, Eq, Structural)]
pub enum Bindings {
    Node,
    Python,
}

/// The name of a language.
pub open spec fn language(b: Bindings) -> Seq<char> {
    match b {
        Bindings::Node => "Node"@,
        Bindings::Python => "Python"@,
    }
}

fn show_language(b: Bindings) -> (r: &'static str)
    ensures
        r@ == language(b),
{
    match b {
        Bindings::Node => "Node",
        Bindings::Python => "Python",
    }
}

/// What is printed before bindings are updated; only installed ones are.
pub fn bindings_start(b: Bindings, installed: bool) -> (r: Option<String>)
    ensures
        opt_text(r) == if installed {
            Some("Updating "@ + language(b) + " bindings..."@)
        } else {
            None
        },
{
    if installed {
        Some("Updating ".to_owned().concat(show_language(b)).concat(" bindings..."))
    } else {
        None
    }
}

/// What is printed after bindings were updated; a failure is a warning only.
pub fn bindings_end(b: Bindings, updated: bool) -> (r: String)
    ensures
        r@ == if updated {
            language(b) + " bindings updated."@
        } else {
            "warn: failed to update "@ + language(b) + " bindings"@
        },
{
    if updated {
        show_language(b).to_owned().concat(" bindings updated.")
    } else {
        "warn: failed to update ".to_owned().concat(show_language(b)).concat(" bindings")
    }
}

/// How `pip` is called.
#[derive(Clone, Copy, Debug, PartialEq, Eq, Structural)]
pub enum Pip {
    /// As `pip3`.
    Pip3,
    /// As a module of `python3`.
    Module,
}

/// How `pip` is called, if it is there; `pip3` goes first.
pub fn choose_pip(pip3: bool, module: bool) -> (r: Option<Pip>)
    ensures
        r == if pip3 {
            Some(Pip::Pip3)
        } else if module {
            Some(Pip::Module)
        } else {
            None
        },
{
    if pip3 {
        Some(Pip::Pip3)
    } else if module {
        Some(Pip::Module)
    } else {
        None
    }
}

// ---------------------------------------------------------------------------
// Laws
// ---------------------------------------------------------------------------

proof fn lemma_text_sign(a: Seq<char>, b: Seq<char>)
    ensures
        text_sign(a, b) == -text_sign(b, a),
{
    if text_lt(a, b) && text_lt(b, a) {
        crate::order::lemma_text_lt_transitive(a, b, a);
        crate::order::lemma_text_lt_irreflexive(a);
    }
}

proof fn lemma_parts_sign(a: Seq<Seq<char>>, b: Seq<Seq<char>>, i: int)
    ensures
        parts_sign(a, b, i) == -parts_sign(b, a, i),
    decreases a.len() + b.len() - i,
{
    if i < a.len() || i < b.len() {
        lemma_text_sign(component_at(a, i).1, component_at(b, i).1);
        lemma_parts_sign(a, b, i + 1);
    }
}

/// Of two versions at most one is newer than the other, and no version is
/// newer than itself.
pub proof fn law_newer_is_asymmetric(a: Seq<char>, b: Seq<char>)
    ensures
        version_sign(a, b) == -version_sign(b, a),
        version_sign(a, a) == 0,
{
    lemma_parts_sign(split(bare_version(a), '.'), split(bare_version(b), '.'), 0);
    lemma_parts_sign(split(bare_version(a), '.'), split(bare_version(a), '.'), 0);
}

proof fn lemma_decimal_is_bare(n: int)
    requires
        0 <= n <= u64::MAX,
    ensures
        bare_version(decimal(n)) == decimal(n),
{
    let d = decimal(n);
    lemma_decimal_is_digits(n);
    law_trimming_takes_white_space_off(d);
    reveal_strlit("v");
    assert(is_digit(d[0]));
    assert(is_digit(d[d.len() - 1]));
    if "v"@.is_prefix_of(d) {
        assert(d[0] == "v"@[0]);
    }
}

proof fn lemma_decimal_is_one_part(n: int)
    requires
        0 <= n <= u64::MAX,
    ensures
        split(decimal(n), '.') == seq![decimal(n)],
{
    let d = decimal(n);
    lemma_decimal_is_digits(n);
    lemma_index_or_len(d, '.');
    let i = index_or_len(d, '.');
    if i < d.len() {
        assert(is_digit(d[i]));
    }
}

proof fn lemma_decimal_component(n: int)
    requires
        0 <= n <= u64::MAX,
    ensures
        component(decimal(n)) == (n, Seq::<char>::empty()),
{
    let d = decimal(n);
    lemma_decimal_is_digits(n);
    law_decimals_are_read_back(n, u64::MAX as int);
    lemma_leading_of_digits(d);
    assert(d.take(d.len() as int) =~= d);
    assert(d.skip(d.len() as int) =~= Seq::<char>::empty());
}

proof fn lemma_leading_of_digits(d: Seq<char>)
    requires
        all_digits(d),
    ensures
        leading_digits(d) == d.len(),
    decreases d.len(),
{
    if d.len() > 0 {
        assert(is_digit(d[0]));
        let t = d.skip(1);
        assert forall|i: int| 0 <= i < t.len() implies is_digit(#[trigger] t[i]) by {
            assert(is_digit(d[i + 1]));
        }
        lemma_leading_of_digits(t);
    }
}

/// Versions are compared by their numbers, not by their digits.
pub proof fn law_versions_are_compared_as_numbers(n: int, m: int)
    requires
        0 <= n <= u64::MAX,
        0 <= m <= u64::MAX,
    ensures
        version_sign(decimal(n), decimal(m)) < 0 <==> n < m,
        version_sign(decimal(n), decimal(m)) > 0 <==> n > m,
        version_sign(decimal(n), decimal(m)) == 0 <==> n == m,
{
    lemma_decimal_is_bare(n);
    lemma_decimal_is_bare(m);
    lemma_decimal_is_one_part(n);
    lemma_decimal_is_one_part(m);
    lemma_decimal_component(n);
    lemma_decimal_component(m);
    let a = seq![decimal(n)];
    let b = seq![decimal(m)];
    assert(parts_sign(a, b, 1) == 0);
    assert(component_at(a, 0) == component(a[0]));
    assert(component_at(b, 0) == component(b[0]));
    let e = Seq::<char>::empty();
    assert(!text_lt(e, e));
}

/// The first part in which two versions differ decides, and parts that are
/// missing count as zero.
pub proof fn law_first_difference_decides(a: Seq<Seq<char>>, b: Seq<Seq<char>>, from: int, k: int)
    requires
        0 <= from <= k,
        k < a.len() || k < b.len(),
        forall|i: int|
            from <= i < k ==> component_sign(
                #[trigger] component_at(a, i),
                component_at(b, i),
            ) == 0,
        component_sign(component_at(a, k), component_at(b, k)) != 0,
    ensures
        parts_sign(a, b, from) == component_sign(component_at(a, k), component_at(b, k)),
        component_at(a, a.len() as int) == (0int, Seq::<char>::empty()),
    decreases k - from,
{
    if from < k {
        assert(component_sign(component_at(a, from), component_at(b, from)) == 0);
        law_first_difference_decides(a, b, from + 1, k);
    }
}

/// The larger number is newer; of equal numbers a release is newer than what
/// comes before it, such as a candidate.
pub proof fn law_releases_are_newer_than_candidates(n: int, m: int, s: Seq<char>, t: Seq<char>)
    ensures
        n < m ==> component_sign((n, s), (m, t)) < 0,
        n > m ==> component_sign((n, s), (m, t)) > 0,
        s.len() > 0 ==> component_sign((n, Seq::empty()), (n, s)) > 0,
        s.len() > 0 ==> component_sign((n, s), (n, Seq::empty())) < 0,
{
}

/// A leading `v` does not matter.
pub proof fn law_leading_v_does_not_matter(a: Seq<char>, b: Seq<char>)
    requires
        a.len() > 0,
        a[0] != 'v',
    ensures
        version_sign("v"@ + a, b) == version_sign(a, b),
        release_of("v"@ + a) == a,
        release_of(a) == a,
{
    reveal_strlit("v");
    let s = "v"@ + a;
    assert("v"@.is_prefix_of(s));
    assert(s.skip(1) =~= a);
    if "v"@.is_prefix_of(a) {
        assert(a[0] == "v"@[0]);
    }
}

/// A platform is an operating system and an architecture that binaries are built
/// for; macOS is called Darwin.
pub proof fn law_platforms(os: Seq<char>, arch: Seq<char>)
    ensures
        platform_name(os, arch) is Ok <==> (os == "linux"@ || os == "macos"@) && (arch == "x86_64"@
            || arch == "aarch64"@),
        platform_name("linux"@, "x86_64"@) == Ok::<Seq<char>, CliErrorView>(
            "linux"@ + "-"@ + "x86_64"@,
        ),
        platform_name("macos"@, "aarch64"@) == Ok::<Seq<char>, CliErrorView>(
            "darwin"@ + "-"@ + "aarch64"@,
        ),
        platform_name(os, arch) matches Ok(p) ==> ("-"@ + arch).is_suffix_of(p),
{
    reveal_strlit("linux");
    reveal_strlit("macos");
    assert("linux"@[0] == 'l' && "macos"@[0] == 'm');
    if let Ok(p) = platform_name(os, arch) {
        let tail = "-"@ + arch;
        assert(p.subrange(p.len() - tail.len(), p.len() as int) =~= tail);
    }
}

/// A member is read back as the text between the quotes behind its key.
pub proof fn law_members_are_read_back(
    before: Seq<char>,
    key: Seq<char>,
    value: Seq<char>,
    after: Seq<char>,
)
    requires
        !value.contains('"'),
        find_from(
            before + ("\""@ + key + "\""@) + seq![':', '"'] + value + seq!['"'] + after,
            "\""@ + key + "\""@,
            0,
        ) == Some(before.len() as int),
    ensures
        scanned(
            before + ("\""@ + key + "\""@) + seq![':', '"'] + value + seq!['"'] + after,
            key,
        ) == Some(value),
{
    let pattern = "\""@ + key + "\""@;
    let json = before + pattern + seq![':', '"'] + value + seq!['"'] + after;
    let rest = json.skip((before.len() + pattern.len()) as int);
    assert(rest =~= seq![':', '"'] + value + seq!['"'] + after);
    assert(rest[0] == ':');
    assert(trim_start(rest) == rest);
    let t = rest.skip(1);
    assert(t =~= seq!['"'] + value + seq!['"'] + after);
    assert(t[0] == '"');
    assert(trim_start(t) == t);
    let u = t.skip(1);
    assert(u =~= value + seq!['"'] + after);
    lemma_first_quote(value, after, 0);
    assert(u.take(value.len() as int) =~= value);
}

proof fn lemma_first_quote(value: Seq<char>, after: Seq<char>, i: int)
    requires
        !value.contains('"'),
        0 <= i <= value.len(),
    ensures
        find_from(value + seq!['"'] + after, seq!['"'], i) == Some(value.len() as int),
    decreases value.len() - i,
{
    let u = value + seq!['"'] + after;
    assert(u.subrange(i, i + 1) =~= seq![u[i]]);
    if i < value.len() {
        assert(u[i] == value[i]);
        assert(seq![u[i]][0] != seq!['"'][0]);
        lemma_first_quote(value, after, i + 1);
    } else {
        assert(u[i] == '"');
    }
}

/// What an update says: the version that is installed, the latest one, and that it
/// downloads exactly when it is forced or the latest is newer.
pub proof fn law_updates_say_what_they_do(tag: Seq<char>, current: Seq<char>, force: bool)
    ensures
        update_lines(tag, current, force)[0] == "installed: v"@ + current,
        update_lines(tag, current, force)[1] == "   latest: "@ + tag,
        update_lines(tag, current, force)[2] == "Already up to date."@ <==> !force && version_sign(
            release_of(tag),
            current,
        ) <= 0,
        update_lines(tag, current, force)[2] == "Downloading update..."@ <==> !force && version_sign(
            release_of(tag),
            current,
        ) > 0,
        update_lines(tag, current, force)[2] == "Forcing update..."@ <==> force,
        update_lines(tag, current, force).len() == 3,
        language(Bindings::Node) == "Node"@,
        language(Bindings::Python) == "Python"@,
        repo() == "longcipher/onecipher"@,
{
    reveal_strlit("Already up to date.");
    reveal_strlit("Downloading update...");
    reveal_strlit("Forcing update...");
    assert("Already up to date."@.len() == 19 && "Already up to date."@[0] == 'A'
        && "Downloading update..."@.len() == 21 && "Downloading update..."@[0] == 'D'
        && "Forcing update..."@.len() == 17 && "Forcing update..."@[0] == 'F');
}

/// A part of a version that does not begin with a digit counts as zero with its text.
pub proof fn law_parts_without_a_number_are_zero(part: Seq<char>)
    requires
        part.len() == 0 || !('0' <= part[0] <= '9'),
    ensures
        component(part) == (0int, part),
{
    assert(leading_digits(part) == 0);
    assert(part.take(0) =~= Seq::<char>::empty());
    assert(part.skip(0) =~= part);
    law_numbers_are_digits(part.take(0), u64::MAX as int, 0);
}

} // verus!
