//! JSON text, through `serde_json`.
use vstd::prelude::*;

verus! {

/// A parsed JSON document.
#[verifier::external_type_specification]
#[verifier::external_body]
pub struct ExJsonValue(serde_json::Value);

/// A hexadecimal digit in lower case.
pub open spec fn hex_char(d: int) -> char {
    if d < 10 {
        ((48 + d) as u8) as char
    } else {
        ((87 + d) as u8) as char
    }
}

/// A character inside a JSON string literal.
pub open spec fn json_escape(c: char) -> Seq<char> {
    let u = c as int;
    if c == '"' || c == '\\' {
        seq!['\\', c]
    } else if u == 8 {
        seq!['\\', 'b']
    } else if u == 9 {
        seq!['\\', 't']
    } else if u == 10 {
        seq!['\\', 'n']
    } else if u == 12 {
        seq!['\\', 'f']
    } else if u == 13 {
        seq!['\\', 'r']
    } else if u < 32 {
        seq!['\\', 'u', '0', '0', hex_char(u / 16), hex_char(u % 16)]
    } else {
        seq![c]
    }
}

/// The characters of a JSON string literal between its quotes.
pub open spec fn json_escaped(s: Seq<char>) -> Seq<char>
    decreases s.len(),
{
    if s.len() == 0 {
        Seq::empty()
    } else {
        json_escaped(s.drop_last()) + json_escape(s.last())
    }
}

/// The JSON string literal that stands for `s`.
pub open spec fn json_literal(s: Seq<char>) -> Seq<char> {
    seq!['"'] + json_escaped(s) + seq!['"']
}

/// `serde_json::Value`'s `Display` on a string value: the literal in quotes,
/// with `"`, `\` and the control characters below U+0020 escaped (the short
/// escapes where JSON has them, `\u00xx` otherwise) and every other character
/// as it is.
#[verifier::external_body]
pub(crate) fn quote(s: &str) -> (r: String)
    ensures
        r@ == json_literal(s@),
{
    serde_json::Value::from(s).to_string()
}

/// The document that `text` is, or what `serde_json` says is wrong with it.
pub uninterp spec fn json_document(text: Seq<char>) -> Result<serde_json::Value, Seq<char>>;

/// The strings in a document, by JSON pointer.
pub uninterp spec fn json_strings(v: serde_json::Value) -> Map<Seq<char>, Seq<char>>;

/// The members of a document that is an object.
pub uninterp spec fn json_members(v: serde_json::Value) -> Option<
    Map<Seq<char>, serde_json::Value>,
>;

/// `serde_json::from_str` into a `Value`: the document that `text` is, or the
/// parser's message.
#[verifier::external_body]
pub(crate) fn parse(text: &str) -> (r: Result<serde_json::Value, String>)
    ensures
        match r {
            Ok(v) => json_document(text@) == Ok::<serde_json::Value, Seq<char>>(v),
            Err(e) => json_document(text@) == Err::<serde_json::Value, Seq<char>>(e@),
        },
{
    serde_json::from_str::<serde_json::Value>(text).map_err(|e| e.to_string())
}

/// The string at `pointer` in a document.
pub open spec fn json_string_at(v: serde_json::Value, pointer: Seq<char>) -> Option<Seq<char>> {
    if json_strings(v).contains_key(pointer) {
        Some(json_strings(v)[pointer])
    } else {
        None
    }
}

/// `Value::pointer` followed by `Value::as_str`: the string at `pointer`, if
/// the document has one there.
#[verifier::external_body]
pub(crate) fn string_at(v: &serde_json::Value, pointer: &str) -> (r: Option<String>)
    ensures
        match r {
            Some(s) => json_strings(*v).contains_key(pointer@) && s@ == json_strings(*v)[pointer@],
            None => !json_strings(*v).contains_key(pointer@),
        },
{
    v.pointer(pointer).and_then(|x| x.as_str()).map(|s| s.to_string())
}

/// A value of a configuration setting.
#[derive(Debug)]
pub enum Setting {
    Text(String),
    Flag(bool),
    Number(u64),
}

/// A [`Setting`] with its text as a sequence of characters.
pub enum SettingView {
    Text(Seq<char>),
    Flag(bool),
    Number(u64),
}

impl View for Setting {
    type V = SettingView;

    open spec fn view(&self) -> SettingView {
        match *self {
            Setting::Text(s) => SettingView::Text(s@),
            Setting::Flag(b) => SettingView::Flag(b),
            Setting::Number(n) => SettingView::Number(n),
        }
    }
}

/// The document that is a single text, flag or number.
pub uninterp spec fn json_of(s: SettingView) -> serde_json::Value;

/// The string that a document is.
pub uninterp spec fn json_string(v: serde_json::Value) -> Option<Seq<char>>;

/// The items of a document that is an array.
pub uninterp spec fn json_items(v: serde_json::Value) -> Option<Seq<serde_json::Value>>;

/// `serde_json::Value::from` on a text, a flag or a number: a text becomes the
/// string that it is.
#[verifier::external_body]
pub(crate) fn setting_value(s: Setting) -> (r: serde_json::Value)
    ensures
        r == json_of(s@),
        s@ matches SettingView::Text(t) ==> json_string(r) == Some(t),
{
    match s {
        Setting::Text(t) => serde_json::Value::from(t),
        Setting::Flag(b) => serde_json::Value::from(b),
        Setting::Number(n) => serde_json::Value::from(n),
    }
}

/// The document that is a signed number.
pub uninterp spec fn json_signed(n: i64) -> serde_json::Value;

/// `serde_json::Value::from` on a signed number.
#[verifier::external_body]
pub(crate) fn signed_value(n: i64) -> (r: serde_json::Value)
    ensures
        r == json_signed(n),
{
    serde_json::Value::from(n)
}

/// `Value::is_object`.
#[verifier::external_body]
pub(crate) fn is_object(v: &serde_json::Value) -> (r: bool)
    ensures
        r == (json_members(*v) is Some),
{
    v.is_object()
}

/// The document is `null`.
pub uninterp spec fn json_is_null(v: serde_json::Value) -> bool;

/// `Value::is_null`.
#[verifier::external_body]
pub(crate) fn is_null(v: &serde_json::Value) -> (r: bool)
    ensures
        r == json_is_null(*v),
{
    v.is_null()
}

/// The object without members: an empty `serde_json::Map`.
#[verifier::external_body]
pub(crate) fn empty_object() -> (r: serde_json::Value)
    ensures
        json_members(r) == Some(Map::<Seq<char>, serde_json::Value>::empty()),
{
    serde_json::Value::Object(serde_json::Map::new())
}

/// `Value::get` with a text key: the member of that name, if the document is
/// an object that has one.
#[verifier::external_body]
pub(crate) fn member(v: &serde_json::Value, key: &str) -> (r: Option<serde_json::Value>)
    ensures
        match json_members(*v) {
            Some(m) => r == if m.contains_key(key@) {
                Some(m[key@])
            } else {
                None
            },
            None => r is None,
        },
{
    v.get(key).cloned()
}

/// Assignment through `IndexMut` with a text key: the object with one member
/// added or replaced.
#[verifier::external_body]
pub(crate) fn with_member(v: serde_json::Value, key: &str, x: serde_json::Value) -> (r:
    serde_json::Value)
    requires
        json_members(v) is Some,
    ensures
        json_members(r) == Some(json_members(v)->0.insert(key@, x)),
{
    let mut v = v;
    v[key] = x;
    v
}

/// The indented text of a document.
pub uninterp spec fn json_pretty(v: serde_json::Value) -> Seq<char>;

/// `Value`'s alternate `Display`: the indented text, as
/// `serde_json::to_string_pretty` writes it.
#[verifier::external_body]
pub(crate) fn pretty(v: &serde_json::Value) -> (r: String)
    ensures
        r@ == json_pretty(*v),
{
    format!("{v:#}")
}

/// The text of a document without white space.
pub uninterp spec fn json_compact(v: serde_json::Value) -> Seq<char>;

/// `Value`'s plain `Display`: the text without white space, as
/// `serde_json::to_string` writes it.
#[verifier::external_body]
pub(crate) fn compact(v: &serde_json::Value) -> (r: String)
    ensures
        r@ == json_compact(*v),
{
    v.to_string()
}

/// The document that `bytes` are, or what `serde_json` says is wrong with
/// them.
pub uninterp spec fn json_bytes_document(bytes: Seq<u8>) -> Result<serde_json::Value, Seq<char>>;

/// `serde_json::from_slice` into a `Value`: the document that `bytes` are, or
/// the parser's message.
#[verifier::external_body]
pub(crate) fn parse_bytes(bytes: &[u8]) -> (r: Result<serde_json::Value, String>)
    ensures
        match r {
            Ok(v) => json_bytes_document(bytes@) == Ok::<serde_json::Value, Seq<char>>(v),
            Err(e) => json_bytes_document(bytes@) == Err::<serde_json::Value, Seq<char>>(e@),
        },
{
    serde_json::from_slice::<serde_json::Value>(bytes).map_err(|e| e.to_string())
}

/// The integers in a document, by JSON pointer.
pub uninterp spec fn json_ints(v: serde_json::Value) -> Map<Seq<char>, i64>;

/// `Value::pointer` followed by `Value::as_i64`: the integer at `pointer`, if
/// the document has one there that fits.
#[verifier::external_body]
pub(crate) fn int_at(v: &serde_json::Value, pointer: &str) -> (r: Option<i64>)
    ensures
        match r {
            Some(n) => json_ints(*v).contains_key(pointer@) && n == json_ints(*v)[pointer@],
            None => !json_ints(*v).contains_key(pointer@),
        },
{
    v.pointer(pointer).and_then(|x| x.as_i64())
}

/// The unsigned integers in a document, by JSON pointer.
pub uninterp spec fn json_uints(v: serde_json::Value) -> Map<Seq<char>, u64>;

/// `Value::pointer` followed by `Value::as_u64`: the unsigned integer at
/// `pointer`, if the document has one there that fits.
#[verifier::external_body]
pub(crate) fn uint_at(v: &serde_json::Value, pointer: &str) -> (r: Option<u64>)
    ensures
        match r {
            Some(n) => json_uints(*v).contains_key(pointer@) && n == json_uints(*v)[pointer@],
            None => !json_uints(*v).contains_key(pointer@),
        },
{
    v.pointer(pointer).and_then(|x| x.as_u64())
}

/// A number with a number of decimals, if the document is a number that a
/// double can hold.
pub uninterp spec fn json_fixed(v: serde_json::Value, decimals: usize) -> Option<Seq<char>>;

/// `Value::as_f64`, shown with `decimals` decimals.
#[verifier::external_body]
pub(crate) fn fixed(v: &serde_json::Value, decimals: usize) -> (r: Option<String>)
    requires
        decimals <= 0xffff,
    ensures
        match r {
            Some(s) => json_fixed(*v, decimals) == Some(s@),
            None => json_fixed(*v, decimals) is None,
        },
{
    v.as_f64().map(|n| format!("{n:.decimals$}"))
}

/// `Value::as_str`.
#[verifier::external_body]
pub(crate) fn text_value(v: &serde_json::Value) -> (r: Option<String>)
    ensures
        match r {
            Some(s) => json_string(*v) == Some(s@),
            None => json_string(*v) is None,
        },
{
    v.as_str().map(|s| s.to_string())
}

/// `Value::as_array`.
#[verifier::external_body]
pub(crate) fn items(v: &serde_json::Value) -> (r: Option<Vec<serde_json::Value>>)
    ensures
        match r {
            Some(x) => json_items(*v) == Some(x@),
            None => json_items(*v) is None,
        },
{
    v.as_array().cloned()
}

/// `Value::Array`: the array of the items.
#[verifier::external_body]
pub(crate) fn array(v: Vec<serde_json::Value>) -> (r: serde_json::Value)
    ensures
        json_items(r) == Some(v@),
{
    serde_json::Value::Array(v)
}

/// `Value::Null`.
#[verifier::external_body]
pub(crate) fn null() -> (r: serde_json::Value)
    ensures
        json_is_null(r),
        json_string(r) is None,
{
    serde_json::Value::Null
}

/// The unsigned number that a document is.
pub uninterp spec fn json_uint(v: serde_json::Value) -> Option<u64>;

/// `Value::as_u64`.
#[verifier::external_body]
pub(crate) fn uint_value(v: &serde_json::Value) -> (r: Option<u64>)
    ensures
        r == json_uint(*v),
{
    v.as_u64()
}

/// What is read of the value in a contract is the value itself, each part under its
/// own name.
pub proof fn law_setting_views_keep_each_value(x: Setting)
    ensures
        x matches Setting::Text(s) ==> x@ == SettingView::Text(s@),
        x matches Setting::Flag(b) ==> x@ == SettingView::Flag(b),
        x matches Setting::Number(n) ==> x@ == SettingView::Number(n),
{
}

/// In a literal a quote, a backslash and control characters are escaped, and every
/// other character stands for itself.
pub proof fn law_literals_are_escaped(s: Seq<char>, c: char)
    ensures
        json_escaped(s.push(c)) == json_escaped(s) + json_escape(c),
        json_escaped(Seq::empty()).len() == 0,
        json_literal(s).first() == '"' && json_literal(s).last() == '"',
        json_escape('"') == seq!['\\', '"'],
        json_escape('\\') == seq!['\\', '\\'],
        json_escape('\n') == seq!['\\', 'n'],
        json_escape('\r') == seq!['\\', 'r'],
        json_escape('\t') == seq!['\\', 't'],
        json_escape(c) == seq![c] <==> c != '"' && c != '\\' && c as int >= 32,
        c as int >= 32 || json_escape(c)[0] == '\\',
{
    assert(s.push(c).drop_last() =~= s);
    if c == '"' || c == '\\' || (c as int) < 32 {
        assert(json_escape(c).len() > 1);
    }
}

/// A text is found at a place exactly when the document has one there.
pub proof fn law_texts_are_found_at_their_place(v: serde_json::Value, pointer: Seq<char>, s: Seq<char>)
    ensures
        json_string_at(v, pointer) == Some(s) <==> json_strings(v).contains_key(pointer)
            && json_strings(v)[pointer] == s,
{
}

/// A digit of an escaped character is the one of its value.
pub proof fn law_escapes_use_small_digits(d: int)
    ensures
        0 <= d < 10 ==> hex_char(d) as int == '0' as int + d,
        10 <= d < 16 ==> hex_char(d) as int == 'a' as int + d - 10,
{
}

} // verus!
