//! Regular expressions, through `regex_lite`.
use vstd::prelude::*;

verus! {

/// A compiled regular expression.
#[verifier::external_type_specification]
#[verifier::external_body]
pub struct ExRegex(regex_lite::Regex);

/// The expression that is written as `pattern`, matching in any case or in its
/// own, or what `regex_lite` says is wrong with it.
pub uninterp spec fn regex_of(pattern: Seq<char>, any_case: bool) -> Result<
    regex_lite::Regex,
    Seq<char>,
>;

/// The expression matches somewhere in `text`.
pub uninterp spec fn regex_matches(re: regex_lite::Regex, text: Seq<char>) -> bool;

/// Where the expression matches in `text`: the byte offsets of each match.
pub uninterp spec fn regex_spans(re: regex_lite::Regex, text: Seq<char>) -> Seq<(usize, usize)>;

/// `RegexBuilder::new`, `case_insensitive` and `build`: the expression, or the
/// parser's message.
#[verifier::external_body]
pub(crate) fn build(pattern: &str, any_case: bool) -> (r: Result<regex_lite::Regex, String>)
    ensures
        match r {
            Ok(re) => regex_of(pattern@, any_case) == Ok::<regex_lite::Regex, Seq<char>>(re),
            Err(e) => regex_of(pattern@, any_case) == Err::<regex_lite::Regex, Seq<char>>(e@),
        },
{
    regex_lite::RegexBuilder::new(pattern)
        .case_insensitive(any_case)
        .build()
        .map_err(|e| e.to_string())
}

/// `Regex::is_match`.
#[verifier::external_body]
pub(crate) fn is_match(re: &regex_lite::Regex, text: &str) -> (r: bool)
    ensures
        r == regex_matches(*re, text@),
{
    re.is_match(text)
}

/// `Regex::find_iter`, each match with its start and end.
#[verifier::external_body]
pub(crate) fn spans(re: &regex_lite::Regex, text: &str) -> (r: Vec<(usize, usize)>)
    ensures
        r@ == regex_spans(*re, text@),
{
    re.find_iter(text).map(|m| (m.start(), m.end())).collect()
}

} // verus!
