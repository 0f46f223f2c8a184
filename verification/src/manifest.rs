//! TOML documents, through `toml`.
use vstd::prelude::*;

verus! {

/// A parsed TOML document, or a value in it.
#[verifier::external_type_specification]
#[verifier::external_body]
pub struct ExTomlValue(toml::Value);

/// The document that `text` is, or what `toml` says is wrong with it.
pub uninterp spec fn toml_document(text: Seq<char>) -> Result<toml::Value, Seq<char>>;

/// The members of a value that is a table.
pub uninterp spec fn toml_members(v: toml::Value) -> Option<Map<Seq<char>, toml::Value>>;

/// The string that a value is.
pub uninterp spec fn toml_string(v: toml::Value) -> Option<Seq<char>>;

/// The items of a value that is an array.
pub uninterp spec fn toml_items(v: toml::Value) -> Option<Seq<toml::Value>>;

/// The member of a value, if it is a table that has it.
pub open spec fn toml_at(v: toml::Value, key: Seq<char>) -> Option<toml::Value> {
    match toml_members(v) {
        Some(m) => if m.contains_key(key) {
            Some(m[key])
        } else {
            None
        },
        None => None,
    }
}

/// `toml::from_str` into a `Value`: the document, or the parser's message.
#[verifier::external_body]
pub(crate) fn parse(text: &str) -> (r: Result<toml::Value, String>)
    ensures
        match r {
            Ok(v) => toml_document(text@) == Ok::<toml::Value, Seq<char>>(v),
            Err(e) => toml_document(text@) == Err::<toml::Value, Seq<char>>(e@),
        },
{
    toml::from_str::<toml::Value>(text).map_err(|e| e.to_string())
}

/// `Value::get` with a text key: the member of that name, if the value is a
/// table that has one.
#[verifier::external_body]
pub(crate) fn member(v: &toml::Value, key: &str) -> (r: Option<toml::Value>)
    ensures
        match toml_members(*v) {
            Some(m) => r == if m.contains_key(key@) {
                Some(m[key@])
            } else {
                None
            },
            None => r is None,
        },
{
    v.get(key).cloned()
}

/// `Value::as_str`.
#[verifier::external_body]
pub(crate) fn text_value(v: &toml::Value) -> (r: Option<String>)
    ensures
        match r {
            Some(s) => toml_string(*v) == Some(s@),
            None => toml_string(*v) is None,
        },
{
    v.as_str().map(|s| s.to_string())
}

/// `Value::as_array`.
#[verifier::external_body]
pub(crate) fn items(v: &toml::Value) -> (r: Option<Vec<toml::Value>>)
    ensures
        match r {
            Some(x) => toml_items(*v) == Some(x@),
            None => toml_items(*v) is None,
        },
{
    v.as_array().cloned()
}

/// A value is found under a key exactly when the table has one there.
pub proof fn law_values_are_found_under_their_key(v: toml::Value, key: Seq<char>, x: toml::Value)
    ensures
        toml_at(v, key) == Some(x) <==> (toml_members(v) matches Some(m) && m.contains_key(key)
            && m[key] == x),
{
}

} // verus!
