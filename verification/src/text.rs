//! Text as sequences of characters: the string operations the commands are
//! built from, each with its meaning as a spec function on `Seq<char>`.
use vstd::prelude::*;

verus! {

/// `String::push`: "appends the given `char` to the end of this `String`".
pub assume_specification[ String::push ](s: &mut String, c: char)
    ensures
        final(s)@ == old(s)@.push(c),
;

// ---------------------------------------------------------------------------
// Conversions
// ---------------------------------------------------------------------------

/// The characters of `s`, in order.
pub fn chars_of(s: &str) -> (r: Vec<char>)
    ensures
        r@ == s@,
{
    let mut v: Vec<char> = Vec::new();
    for c in it: s.chars()
        invariant
            it.seq() == s@,
            v@ == it.seq().take(it.index() as int),
    {
        v.push(c);
    }
    v
}

/// The text made of the characters `v[from..to]`.
pub fn text_range(v: &Vec<char>, from: usize, to: usize) -> (r: String)
    requires
        from <= to <= v@.len(),
    ensures
        r@ == v@.subrange(from as int, to as int),
{
    let mut s = String::new();
    let mut i: usize = from;
    while i < to
        invariant
            from <= i <= to <= v@.len(),
            s@ == v@.subrange(from as int, i as int),
        decreases to - i,
    {
        s.push(v[i]);
        i = i + 1;
    }
    s
}

/// Whether two texts hold the same characters.
pub fn same(a: &str, b: &str) -> (r: bool)
    ensures
        r == (a@ == b@),
{
    a.to_owned() == b.to_owned()
}

/// The views of a sequence of strings.
pub open spec fn texts(v: Seq<String>) -> Seq<Seq<char>> {
    Seq::new(v.len(), |i: int| v[i]@)
}

/// The view of an optional string.
pub open spec fn opt_text(o: Option<String>) -> Option<Seq<char>> {
    match o {
        Some(s) => Some(s@),
        None => None,
    }
}

/// A copy of an optional string.
pub fn clone_opt(o: &Option<String>) -> (r: Option<String>)
    ensures
        opt_text(r) == opt_text(*o),
{
    match o {
        Some(s) => Some(s.clone()),
        None => None,
    }
}

/// A copy of a list of strings.
pub fn clone_all(v: &Vec<String>) -> (r: Vec<String>)
    ensures
        texts(r@) == texts(v@),
{
    let mut out: Vec<String> = Vec::new();
    let mut i: usize = 0;
    while i < v.len()
        invariant
            i <= v@.len(),
            texts(out@) =~= texts(v@).take(i as int),
        decreases v@.len() - i,
    {
        let x = v[i].clone();
        let ghost before = out@;
        out.push(x);
        assert(texts(out@) =~= texts(before).push(texts(v@)[i as int]));
        i = i + 1;
    }
    assert(texts(v@).take(i as int) =~= texts(v@));
    out
}

/// `s` with zeros before it, at least `width` characters long.
pub open spec fn zero_padded(s: Seq<char>, width: int) -> Seq<char>
    decreases width - s.len(),
{
    if s.len() >= width {
        s
    } else {
        zero_padded(seq!['0'] + s, width)
    }
}

/// `s` with zeros before it, at least `width` characters long.
pub fn zero_pad(s: &str, width: usize) -> (r: String)
    ensures
        r@ == zero_padded(s@, width as int),
{
    let mut out = s.to_owned();
    let mut n: usize = s.unicode_len();
    while n < width
        invariant
            n == out@.len(),
            zero_padded(out@, width as int) == zero_padded(s@, width as int),
        decreases width - n,
    {
        let mut next = String::new();
        next.push('0');
        next.append(out.as_str());
        assert(next@ =~= seq!['0'] + out@);
        out = next;
        n = n + 1;
    }
    out
}

/// `true` or `false`.
pub open spec fn bool_text(b: bool) -> Seq<char> {
    if b {
        "true"@
    } else {
        "false"@
    }
}

/// `true` or `false`.
pub fn show_bool(b: bool) -> (r: &'static str)
    ensures
        r@ == bool_text(b),
{
    if b {
        "true"
    } else {
        "false"
    }
}

/// The views of a sequence of string slices.
pub open spec fn strs(v: Seq<&str>) -> Seq<Seq<char>> {
    Seq::new(v.len(), |i: int| v[i]@)
}

/// `s` with spaces behind it, at least `width` characters long.
pub open spec fn pad_right(s: Seq<char>, width: int) -> Seq<char>
    decreases width - s.len(),
{
    if s.len() >= width {
        s
    } else {
        pad_right(s.push(' '), width)
    }
}

/// `s` with spaces behind it, at least `width` characters long.
pub fn padded_right(s: &str, width: usize) -> (r: String)
    ensures
        r@ == pad_right(s@, width as int),
{
    let mut out = s.to_owned();
    let mut n: usize = s.unicode_len();
    while n < width
        invariant
            n == out@.len(),
            pad_right(out@, width as int) == pad_right(s@, width as int),
        decreases width - n,
    {
        out.push(' ');
        n = n + 1;
    }
    out
}

// ---------------------------------------------------------------------------
// Character classes
// ---------------------------------------------------------------------------

pub open spec fn is_digit(c: char) -> bool {
    '0' <= c && c <= '9'
}

pub open spec fn is_upper(c: char) -> bool {
    'A' <= c && c <= 'Z'
}

pub open spec fn is_lower(c: char) -> bool {
    'a' <= c && c <= 'z'
}

pub open spec fn is_alnum(c: char) -> bool {
    is_digit(c) || is_upper(c) || is_lower(c)
}

/// The code points with the Unicode property `White_Space`.
pub open spec fn is_space(c: char) -> bool {
    let u = c as int;
    ||| 0x09 <= u <= 0x0d
    ||| u == 0x20
    ||| u == 0x85
    ||| u == 0xa0
    ||| u == 0x1680
    ||| 0x2000 <= u <= 0x200a
    ||| u == 0x2028
    ||| u == 0x2029
    ||| u == 0x202f
    ||| u == 0x205f
    ||| u == 0x3000
}

pub fn digit(c: char) -> (r: bool)
    ensures
        r == is_digit(c),
{
    '0' <= c && c <= '9'
}

pub fn upper(c: char) -> (r: bool)
    ensures
        r == is_upper(c),
{
    'A' <= c && c <= 'Z'
}

pub fn lower(c: char) -> (r: bool)
    ensures
        r == is_lower(c),
{
    'a' <= c && c <= 'z'
}

pub fn alnum(c: char) -> (r: bool)
    ensures
        r == is_alnum(c),
{
    digit(c) || upper(c) || lower(c)
}

pub fn space(c: char) -> (r: bool)
    ensures
        r == is_space(c),
{
    let u: u32 = c as u32;
    (0x09 <= u && u <= 0x0d) || u == 0x20 || u == 0x85 || u == 0xa0 || u == 0x1680 || (0x2000 <= u
        && u <= 0x200a) || u == 0x2028 || u == 0x2029 || u == 0x202f || u == 0x205f || u == 0x3000
}

/// ASCII letters in lower case; every other character as it is.
pub open spec fn lower_char(c: char) -> char {
    if is_upper(c) {
        ((c as u8 + 32) as u8) as char
    } else {
        c
    }
}

/// ASCII letters in upper case; every other character as it is.
pub open spec fn upper_char(c: char) -> char {
    if is_lower(c) {
        ((c as u8 - 32) as u8) as char
    } else {
        c
    }
}

pub open spec fn ascii_lower(s: Seq<char>) -> Seq<char> {
    Seq::new(s.len(), |i: int| lower_char(s[i]))
}

pub open spec fn ascii_upper(s: Seq<char>) -> Seq<char> {
    Seq::new(s.len(), |i: int| upper_char(s[i]))
}

pub fn to_lower_char(c: char) -> (r: char)
    ensures
        r == lower_char(c),
{
    if upper(c) {
        (c as u8 + 32u8) as char
    } else {
        c
    }
}

pub fn to_upper_char(c: char) -> (r: char)
    ensures
        r == upper_char(c),
{
    if lower(c) {
        (c as u8 - 32u8) as char
    } else {
        c
    }
}

/// `s` with its ASCII letters in lower case.
pub fn to_ascii_lower(s: &str) -> (r: String)
    ensures
        r@ == ascii_lower(s@),
{
    let mut out = String::new();
    for c in it: s.chars()
        invariant
            it.seq() == s@,
            out@ =~= ascii_lower(s@).take(it.index() as int),
    {
        out.push(to_lower_char(c));
    }
    assert(ascii_lower(s@).take(s@.len() as int) =~= ascii_lower(s@));
    out
}

/// `s` with its ASCII letters in upper case.
pub fn to_ascii_upper(s: &str) -> (r: String)
    ensures
        r@ == ascii_upper(s@),
{
    let mut out = String::new();
    for c in it: s.chars()
        invariant
            it.seq() == s@,
            out@ =~= ascii_upper(s@).take(it.index() as int),
    {
        out.push(to_upper_char(c));
    }
    assert(ascii_upper(s@).take(s@.len() as int) =~= ascii_upper(s@));
    out
}

/// `s` in lower case, after Unicode.
pub uninterp spec fn lower_case(s: Seq<char>) -> Seq<char>;

/// `s` in upper case, after Unicode.
pub uninterp spec fn upper_case(s: Seq<char>) -> Seq<char>;

/// `str::to_lowercase`: the lower case after Unicode; on ASCII text the ASCII
/// letters change and nothing else.
#[verifier::external_body]
pub(crate) fn to_lower_case(s: &str) -> (r: String)
    ensures
        r@ == lower_case(s@),
        vstd::utf8::is_ascii_chars(s@) ==> r@ == ascii_lower(s@),
{
    s.to_lowercase()
}

/// `str::to_uppercase`: the upper case after Unicode; on ASCII text the ASCII
/// letters change and nothing else.
#[verifier::external_body]
pub(crate) fn to_upper_case(s: &str) -> (r: String)
    ensures
        r@ == upper_case(s@),
        vstd::utf8::is_ascii_chars(s@) ==> r@ == ascii_upper(s@),
{
    s.to_uppercase()
}

/// `s` in quotes, with the escapes of Rust's `Debug`.
pub uninterp spec fn debug_text(s: Seq<char>) -> Seq<char>;

/// The `Debug` of `str`: the text in quotes, escaped.
#[verifier::external_body]
pub(crate) fn debug_quote(s: &str) -> (r: String)
    ensures
        r@ == debug_text(s@),
{
    format!("{s:?}")
}

/// Whether two texts are equal up to the case of ASCII letters.
pub fn same_ignoring_case(a: &str, b: &str) -> (r: bool)
    ensures
        r == (ascii_lower(a@) == ascii_lower(b@)),
{
    to_ascii_lower(a) == to_ascii_lower(b)
}

// ---------------------------------------------------------------------------
// Decimal numbers
// ---------------------------------------------------------------------------

/// The decimal digit `d`.
pub open spec fn digit_char(d: int) -> char {
    ((48 + d) as u8) as char
}

/// `n` in decimal, without leading zeros.
pub open spec fn decimal(n: int) -> Seq<char>
    decreases n,
{
    if n < 10 {
        seq![digit_char(n)]
    } else {
        decimal(n / 10).push(digit_char(n % 10))
    }
}

/// A signed number in decimal.
pub open spec fn signed_decimal(n: int) -> Seq<char> {
    if n < 0 {
        seq!['-'] + decimal(-n)
    } else {
        decimal(n)
    }
}

fn digit_of(d: u8) -> (c: char)
    requires
        d < 10,
    ensures
        c == digit_char(d as int),
{
    (48u8 + d) as char
}

/// `n` in decimal.
pub fn dec(n: u128) -> (r: String)
    ensures
        r@ == decimal(n as int),
    decreases n,
{
    if n < 10 {
        let mut s = String::new();
        s.push(digit_of(n as u8));
        s
    } else {
        let mut s = dec(n / 10);
        s.push(digit_of((n % 10) as u8));
        s
    }
}

/// A signed number in decimal.
pub fn dec_signed(n: i64) -> (r: String)
    ensures
        r@ == signed_decimal(n as int),
{
    if n < 0 {
        let m: i128 = 0i128 - (n as i128);
        let d = dec(m as u128);
        let mut s = String::new();
        s.push('-');
        let r = s.concat(d.as_str());
        assert(r@ =~= seq!['-'] + decimal(m as int));
        r
    } else {
        dec(n as u128)
    }
}

/// The value of a sequence of decimal digits.
pub open spec fn digits_value(s: Seq<char>) -> int
    decreases s.len(),
{
    if s.len() == 0 {
        0
    } else {
        digits_value(s.drop_last()) * 10 + (s.last() as int - 48)
    }
}

pub open spec fn all_digits(s: Seq<char>) -> bool {
    forall|i: int| 0 <= i < s.len() ==> is_digit(#[trigger] s[i])
}

/// What a number may look like: an optional `+`, then at least one digit.
pub open spec fn unsigned_digits(s: Seq<char>) -> Seq<char> {
    if s.len() > 0 && s[0] == '+' {
        s.skip(1)
    } else {
        s
    }
}

/// The number written in `s`, when `s` is one and it is at most `max`.
pub open spec fn parsed(s: Seq<char>, max: int) -> Option<int> {
    let d = unsigned_digits(s);
    if d.len() > 0 && all_digits(d) && digits_value(d) <= max {
        Some(digits_value(d))
    } else {
        None
    }
}

/// Digits stand for a number that is not negative.
pub proof fn lemma_digits_not_negative(d: Seq<char>)
    requires
        all_digits(d),
    ensures
        0 <= digits_value(d),
    decreases d.len(),
{
    if d.len() > 0 {
        let front = d.drop_last();
        assert forall|i: int| 0 <= i < front.len() implies is_digit(#[trigger] front[i]) by {
            assert(is_digit(d[i]));
        }
        lemma_digits_not_negative(front);
        assert(is_digit(d[d.len() - 1]));
    }
}

/// A number that was read is between zero and the largest one.
pub proof fn law_parsed_numbers_are_in_range(s: Seq<char>, max: int)
    ensures
        parsed(s, max) matches Some(n) ==> 0 <= n <= max,
{
    if parsed(s, max) is Some {
        lemma_digits_not_negative(unsigned_digits(s));
    }
}

/// The decimal digits of a number stand for it.
pub proof fn lemma_decimal_is_digits(n: int)
    requires
        0 <= n,
    ensures
        decimal(n).len() > 0,
        all_digits(decimal(n)),
        digits_value(decimal(n)) == n,
    decreases n,
{
    if n < 10 {
        assert(decimal(n).drop_last() =~= Seq::<char>::empty());
        assert(digits_value(decimal(n).drop_last()) == 0);
        assert(decimal(n).last() as int == 48 + n);
    } else {
        lemma_decimal_is_digits(n / 10);
        let head = decimal(n / 10);
        assert(decimal(n).drop_last() =~= head);
        assert(digit_char(n % 10) as int == 48 + n % 10);
        assert forall|i: int| 0 <= i < decimal(n).len() implies is_digit(
            #[trigger] decimal(n)[i],
        ) by {
            if i < head.len() {
                assert(is_digit(head[i]));
            }
        }
    }
}

/// A number is read back from its decimal digits.
pub proof fn law_decimals_are_read_back(n: int, max: int)
    requires
        0 <= n <= max,
    ensures
        parsed(decimal(n), max) == Some(n),
{
    lemma_decimal_is_digits(n);
    assert(is_digit(decimal(n)[0]));
}

/// The number written in `s`, if `s` is an optional `+` followed by digits and
/// the number is at most `max`.
pub fn parse_unsigned(s: &str, max: u128) -> (r: Option<u128>)
    ensures
        match r {
            Some(n) => parsed(s@, max as int) == Some(n as int),
            None => parsed(s@, max as int) is None,
        },
{
    let v = chars_of(s);
    let start: usize = if v.len() > 0 && v[0] == '+' {
        1
    } else {
        0
    };
    let ghost d = unsigned_digits(s@);
    assert(d =~= v@.subrange(start as int, v@.len() as int));
    if start == v.len() {
        return None;
    }
    let mut i: usize = start;
    let mut acc: u128 = 0;
    let mut over: bool = false;
    while i < v.len()
        invariant
            start <= i <= v@.len(),
            start <= 1,
            d == unsigned_digits(s@),
            d == v@.subrange(start as int, v@.len() as int),
            all_digits(d.take(i - start)),
            over ==> digits_value(d.take(i - start)) > max,
            !over ==> digits_value(d.take(i - start)) == acc,
            acc <= max,
        decreases v@.len() - i,
    {
        let c = v[i];
        assert(c == d[i - start]);
        if !digit(c) {
            assert(!is_digit(d[i - start]));
            assert(!all_digits(d));
            return None;
        }
        let x: u128 = (c as u32 - 48u32) as u128;
        let ghost before = d.take(i - start);
        let ghost after = d.take(i + 1 - start);
        assert(after.drop_last() =~= before);
        assert(all_digits(after)) by {
            assert forall|j: int| 0 <= j < after.len() implies is_digit(#[trigger] after[j]) by {
                if j < before.len() {
                    assert(is_digit(before[j]));
                }
            }
        }
        assert(digits_value(after) == digits_value(before) * 10 + x);
        if !over {
            if acc > max / 10 || x > max - acc * 10 {
                over = true;
            } else {
                acc = acc * 10 + x;
            }
        }
        i = i + 1;
    }
    assert(d.take(d.len() as int) =~= d);
    if over {
        None
    } else {
        Some(acc)
    }
}

/// The `u64` written in `s`.
pub fn parse_u64(s: &str) -> (r: Option<u64>)
    ensures
        match r {
            Some(n) => parsed(s@, u64::MAX as int) == Some(n as int),
            None => parsed(s@, u64::MAX as int) is None,
        },
{
    match parse_unsigned(s, u64::MAX as u128) {
        Some(n) => Some(n as u64),
        None => None,
    }
}

/// What the standard library says is wrong with a decimal number.
pub uninterp spec fn number_fault(s: Seq<char>) -> Seq<char>;

/// `str::parse` into `u128`: the number of at least one digit, with an
/// optional plus in front, when it fits, and the error's text otherwise.
#[verifier::external_body]
pub(crate) fn parse_u128(s: &str) -> (r: Result<u128, String>)
    ensures
        match r {
            Ok(n) => parsed(s@, u128::MAX as int) == Some(n as int),
            Err(e) => parsed(s@, u128::MAX as int) is None && e@ == number_fault(s@),
        },
{
    s.parse::<u128>().map_err(|e| e.to_string())
}

// ---------------------------------------------------------------------------
// Trimming
// ---------------------------------------------------------------------------

/// `s` without leading white space.
pub open spec fn trim_start(s: Seq<char>) -> Seq<char>
    decreases s.len(),
{
    if s.len() > 0 && is_space(s[0]) {
        trim_start(s.skip(1))
    } else {
        s
    }
}

/// `s` without trailing white space.
pub open spec fn trim_end(s: Seq<char>) -> Seq<char>
    decreases s.len(),
{
    if s.len() > 0 && is_space(s.last()) {
        trim_end(s.drop_last())
    } else {
        s
    }
}

/// `s` without white space at either end.
pub open spec fn trim(s: Seq<char>) -> Seq<char> {
    trim_end(trim_start(s))
}

/// `s` without its trailing characters that are in `set`.
pub open spec fn trim_end_of(s: Seq<char>, set: Seq<char>) -> Seq<char>
    decreases s.len(),
{
    if s.len() > 0 && set.contains(s.last()) {
        trim_end_of(s.drop_last(), set)
    } else {
        s
    }
}

/// `s` without white space at either end.
pub fn trimmed(s: &str) -> (r: String)
    ensures
        r@ == trim(s@),
{
    let v = chars_of(s);
    let mut i: usize = 0;
    assert(v@.skip(0) =~= v@);
    while i < v.len() && space(v[i])
        invariant
            v@ == s@,
            i <= v@.len(),
            trim_start(s@) == trim_start(v@.skip(i as int)),
        decreases v@.len() - i,
    {
        assert(v@.skip(i as int).skip(1) =~= v@.skip(i + 1));
        i = i + 1;
    }
    assert(trim_start(s@) == v@.skip(i as int));
    let mut j: usize = v.len();
    assert(v@.subrange(i as int, j as int) =~= v@.skip(i as int));
    while j > i && space(v[j - 1])
        invariant
            i <= j <= v@.len(),
            trim(s@) == trim_end(v@.subrange(i as int, j as int)),
        decreases j,
    {
        assert(v@.subrange(i as int, j as int).drop_last() =~= v@.subrange(i as int, j - 1));
        j = j - 1;
    }
    text_range(&v, i, j)
}

/// `s` without its trailing line breaks (`\n` and `\r`).
pub fn trimmed_newlines(s: &str) -> (r: String)
    ensures
        r@ == trim_end_of(s@, seq!['\n', '\r']),
{
    let v = chars_of(s);
    let ghost set = seq!['\n', '\r'];
    assert(set[0] == '\n' && set[1] == '\r');
    let mut j: usize = v.len();
    assert(v@.take(j as int) =~= v@);
    while j > 0 && (v[j - 1] == '\n' || v[j - 1] == '\r')
        invariant
            j <= v@.len(),
            set == seq!['\n', '\r'],
            set[0] == '\n' && set[1] == '\r',
            trim_end_of(s@, set) == trim_end_of(v@.take(j as int), set),
        decreases j,
    {
        assert(v@.take(j as int).drop_last() =~= v@.take(j - 1));
        assert(set.contains(v@.take(j as int).last()));
        j = j - 1;
    }
    text_range(&v, 0, j)
}

// ---------------------------------------------------------------------------
// Searching and splitting
// ---------------------------------------------------------------------------

/// `p` stands in `s` at position `i`.
pub open spec fn occurs_at(s: Seq<char>, p: Seq<char>, i: int) -> bool {
    0 <= i && i + p.len() <= s.len() && s.subrange(i, i + p.len()) == p
}

/// The first position from `from` on at which `p` stands in `s`.
pub open spec fn find_from(s: Seq<char>, p: Seq<char>, from: int) -> Option<int>
    decreases s.len() + 1 - from,
{
    if from + p.len() > s.len() {
        None
    } else if occurs_at(s, p, from) {
        Some(from)
    } else {
        find_from(s, p, from + 1)
    }
}

/// `p` stands somewhere in `s`.
pub open spec fn contains_text(s: Seq<char>, p: Seq<char>) -> bool {
    exists|i: int| occurs_at(s, p, i)
}

/// `s` with every occurrence of `p` replaced by `r`, from position `i` on, the
/// leftmost first and none overlapping an earlier one.
pub open spec fn replace_from(s: Seq<char>, p: Seq<char>, r: Seq<char>, i: int) -> Seq<char>
    decreases s.len() - i,
{
    if i >= s.len() || p.len() == 0 {
        Seq::empty()
    } else if occurs_at(s, p, i) {
        r + replace_from(s, p, r, i + p.len())
    } else {
        seq![s[i]] + replace_from(s, p, r, i + 1)
    }
}

/// `s` with `r` before each character and at the end.
pub open spec fn interleave(s: Seq<char>, r: Seq<char>) -> Seq<char>
    decreases s.len(),
{
    if s.len() == 0 {
        r
    } else {
        interleave(s.drop_last(), r).push(s.last()) + r
    }
}

/// `s` with every occurrence of `p` replaced by `r`; the empty text occurs
/// around each character.
pub open spec fn replace(s: Seq<char>, p: Seq<char>, r: Seq<char>) -> Seq<char> {
    if p.len() == 0 {
        interleave(s, r)
    } else {
        replace_from(s, p, r, 0)
    }
}

/// Whether `p` stands in `v` at `i`.
pub fn stands_at(v: &Vec<char>, p: &Vec<char>, i: usize) -> (r: bool)
    requires
        i <= v@.len(),
    ensures
        r == occurs_at(v@, p@, i as int),
{
    if p.len() > v.len() - i {
        return false;
    }
    let mut k: usize = 0;
    while k < p.len()
        invariant
            k <= p@.len(),
            i + p@.len() <= v.len(),
            forall|j: int| 0 <= j < k ==> v@[i + j] == #[trigger] p@[j],
        decreases p@.len() - k,
    {
        if v[i + k] != p[k] {
            assert(v@.subrange(i as int, i + p@.len())[k as int] != p@[k as int]);
            return false;
        }
        k = k + 1;
    }
    assert(v@.subrange(i as int, i + p@.len()) =~= p@);
    true
}

/// The first position at which `p` stands in `v` from `from` on.
pub fn position_from(v: &Vec<char>, p: &Vec<char>, from: usize) -> (r: Option<usize>)
    requires
        from <= v@.len(),
    ensures
        match r {
            Some(i) => find_from(v@, p@, from as int) == Some(i as int) && from <= i && occurs_at(
                v@,
                p@,
                i as int,
            ),
            None => find_from(v@, p@, from as int) is None,
        },
{
    let mut i: usize = from;
    while i <= v.len() && p.len() <= v.len() - i
        invariant
            from <= i <= v@.len() + 1,
            find_from(v@, p@, from as int) == find_from(v@, p@, i as int),
        decreases v@.len() + 1 - i,
    {
        if stands_at(v, p, i) {
            return Some(i);
        }
        assert(p@.len() == 0 ==> v@.subrange(i as int, i as int) =~= p@);
        i = i + 1;
    }
    None
}

proof fn lemma_find_none(s: Seq<char>, p: Seq<char>, from: int)
    requires
        0 <= from,
    ensures
        match find_from(s, p, from) {
            Some(i) => from <= i && occurs_at(s, p, i) && forall|j: int|
                from <= j < i ==> !occurs_at(s, p, j),
            None => forall|j: int| from <= j ==> !occurs_at(s, p, j),
        },
    decreases s.len() + 1 - from,
{
    if from + p.len() > s.len() {
    } else if occurs_at(s, p, from) {
    } else {
        lemma_find_none(s, p, from + 1);
    }
}

/// Whether `p` stands somewhere in `s`.
pub fn contains(s: &str, p: &str) -> (r: bool)
    ensures
        r == contains_text(s@, p@),
{
    let v = chars_of(s);
    let w = chars_of(p);
    proof {
        lemma_find_none(s@, p@, 0);
    }
    position_from(&v, &w, 0).is_some()
}

/// Whether `s` begins with `p`.
pub fn starts_with(s: &str, p: &str) -> (r: bool)
    ensures
        r == p@.is_prefix_of(s@),
{
    let v = chars_of(s);
    let w = chars_of(p);
    stands_at(&v, &w, 0)
}

/// Whether `s` ends with `p`.
pub fn ends_with(s: &str, p: &str) -> (r: bool)
    ensures
        r == p@.is_suffix_of(s@),
{
    let v = chars_of(s);
    let w = chars_of(p);
    if w.len() > v.len() {
        return false;
    }
    stands_at(&v, &w, v.len() - w.len())
}

/// `s` without the prefix `p`, when it begins with it.
pub open spec fn strip_prefix(s: Seq<char>, p: Seq<char>) -> Option<Seq<char>> {
    if p.is_prefix_of(s) {
        Some(s.skip(p.len() as int))
    } else {
        None
    }
}

/// `s` without the prefix `p`, when it begins with it.
pub fn without_prefix(s: &str, p: &str) -> (r: Option<String>)
    ensures
        opt_text(r) == strip_prefix(s@, p@),
{
    if starts_with(s, p) {
        let v = chars_of(s);
        let w = chars_of(p);
        Some(text_range(&v, w.len(), v.len()))
    } else {
        None
    }
}

/// `s` without the suffix `p`, when it ends with it.
pub open spec fn strip_suffix(s: Seq<char>, p: Seq<char>) -> Option<Seq<char>> {
    if p.is_suffix_of(s) {
        Some(s.take(s.len() - p.len()))
    } else {
        None
    }
}

/// `s` without the suffix `p`, when it ends with it.
pub fn without_suffix(s: &str, p: &str) -> (r: Option<String>)
    ensures
        opt_text(r) == strip_suffix(s@, p@),
{
    if ends_with(s, p) {
        let v = chars_of(s);
        let w = chars_of(p);
        Some(text_range(&v, 0, v.len() - w.len()))
    } else {
        None
    }
}

fn interleaved(v: &Vec<char>, r: &str) -> (out: String)
    ensures
        out@ == interleave(v@, r@),
{
    let mut out = r.to_owned();
    let mut i: usize = 0;
    assert(v@.take(0) =~= Seq::<char>::empty());
    while i < v.len()
        invariant
            i <= v@.len(),
            out@ == interleave(v@.take(i as int), r@),
        decreases v@.len() - i,
    {
        assert(v@.take(i + 1).drop_last() =~= v@.take(i as int));
        out.push(v[i]);
        out.append(r);
        i = i + 1;
    }
    assert(v@.take(i as int) =~= v@);
    out
}

/// `s` with every occurrence of `p` replaced by `r`.
pub fn replaced(s: &str, p: &str, r: &str) -> (out: String)
    ensures
        out@ == replace(s@, p@, r@),
{
    let v = chars_of(s);
    let w = chars_of(p);
    if w.len() == 0 {
        return interleaved(&v, r);
    }
    let mut out = String::new();
    let mut i: usize = 0;
    assert(Seq::<char>::empty() + replace(s@, p@, r@) =~= replace(s@, p@, r@));
    while i < v.len()
        invariant
            v@ == s@,
            w@ == p@,
            w@.len() > 0,
            i <= v@.len(),
            out@ + replace_from(s@, p@, r@, i as int) == replace(s@, p@, r@),
        decreases v@.len() - i,
    {
        let ghost before = out@;
        if stands_at(&v, &w, i) {
            out.append(r);
            assert(out@ + replace_from(s@, p@, r@, i + p@.len()) =~= before + (r@ + replace_from(
                s@,
                p@,
                r@,
                i + p@.len(),
            )));
            i = i + w.len();
        } else {
            out.push(v[i]);
            assert(out@ + replace_from(s@, p@, r@, i + 1) =~= before + (seq![s@[i as int]]
                + replace_from(s@, p@, r@, i + 1)));
            i = i + 1;
        }
    }
    assert(out@ + Seq::<char>::empty() =~= out@);
    out
}

/// The first position of `c` in `s`, or the length of `s` when it is absent.
pub open spec fn index_or_len(s: Seq<char>, c: char) -> int
    decreases s.len(),
{
    if s.len() == 0 || s[0] == c {
        0
    } else {
        1 + index_or_len(s.skip(1), c)
    }
}

pub proof fn lemma_index_or_len(s: Seq<char>, c: char)
    ensures
        0 <= index_or_len(s, c) <= s.len(),
        index_or_len(s, c) < s.len() ==> s[index_or_len(s, c)] == c,
        forall|i: int| 0 <= i < index_or_len(s, c) ==> s[i] != c,
    decreases s.len(),
{
    if s.len() == 0 || s[0] == c {
    } else {
        lemma_index_or_len(s.skip(1), c);
        assert forall|i: int| 0 <= i < index_or_len(s, c) implies s[i] != c by {
            if i > 0 {
                assert(s.skip(1)[i - 1] == s[i]);
            }
        }
        if index_or_len(s, c) < s.len() {
            assert(s.skip(1)[index_or_len(s.skip(1), c)] == s[index_or_len(s, c)]);
        }
    }
}

/// The position of the first `c` in `v[from..]`, or `v.len()`.
fn next_index(v: &Vec<char>, c: char, from: usize) -> (r: usize)
    requires
        from <= v@.len(),
    ensures
        r == from + index_or_len(v@.skip(from as int), c),
        from <= r <= v@.len(),
        r < v@.len() ==> v@[r as int] == c,
{
    let mut i: usize = from;
    while i < v.len() && v[i] != c
        invariant
            from <= i <= v@.len(),
            from + index_or_len(v@.skip(from as int), c) == i + index_or_len(v@.skip(i as int), c),
        decreases v@.len() - i,
    {
        assert(v@.skip(i as int).skip(1) =~= v@.skip(i + 1));
        i = i + 1;
    }
    i
}

/// `s` cut in two at its first `c`, which is left out.
pub open spec fn split_once(s: Seq<char>, c: char) -> Option<(Seq<char>, Seq<char>)> {
    let i = index_or_len(s, c);
    if i < s.len() {
        Some((s.take(i), s.skip(i + 1)))
    } else {
        None
    }
}

/// `s` cut in two at its first `c`.
pub fn cut_once(s: &str, c: char) -> (r: Option<(String, String)>)
    ensures
        match r {
            Some((a, b)) => split_once(s@, c) == Some((a@, b@)),
            None => split_once(s@, c) is None,
        },
{
    let v = chars_of(s);
    let i: usize = next_index(&v, c, 0);
    assert(v@.skip(0) =~= v@);
    if i < v.len() {
        let a = text_range(&v, 0, i);
        let b = text_range(&v, i + 1, v.len());
        assert(b@ =~= s@.skip(i + 1));
        Some((a, b))
    } else {
        None
    }
}

/// `s` cut at every `c`.
pub open spec fn split(s: Seq<char>, c: char) -> Seq<Seq<char>>
    decreases s.len(),
{
    let i = index_or_len(s, c);
    if 0 <= i < s.len() {
        seq![s.take(i)] + split(s.skip(i + 1), c)
    } else {
        seq![s]
    }
}

/// `s` cut at every `c`.
pub fn cut(s: &str, c: char) -> (r: Vec<String>)
    ensures
        texts(r@) == split(s@, c),
        r@.len() > 0,
{
    let v = chars_of(s);
    let mut out: Vec<String> = Vec::new();
    let mut from: usize = 0;
    assert(v@.skip(0) =~= s@);
    assert(texts(out@) + split(s@, c) =~= split(s@, c));
    loop
        invariant_except_break
            v@ == s@,
            from <= v@.len(),
            texts(out@) + split(v@.skip(from as int), c) == split(s@, c),
        ensures
            texts(out@) == split(s@, c),
            out@.len() > 0,
        decreases v@.len() - from,
    {
        let i: usize = next_index(&v, c, from);
        let ghost rest = v@.skip(from as int);
        let ghost before = texts(out@);
        if i < v.len() {
            let piece = text_range(&v, from, i);
            assert(piece@ =~= rest.take(i - from));
            out.push(piece);
            assert(rest.skip(i - from + 1) =~= v@.skip(i + 1));
            assert(texts(out@) =~= before.push(piece@));
            assert(texts(out@) + split(v@.skip(i + 1), c) =~= before + (seq![rest.take(i - from)]
                + split(rest.skip(i - from + 1), c)));
            from = i + 1;
        } else {
            let piece = text_range(&v, from, v.len());
            assert(piece@ =~= rest);
            out.push(piece);
            assert(texts(out@) =~= before + seq![rest]);
            break;
        }
    }
    out
}

/// A line without the carriage return that precedes its line feed.
pub open spec fn strip_cr(s: Seq<char>) -> Seq<char> {
    if s.len() > 0 && s.last() == '\r' {
        s.drop_last()
    } else {
        s
    }
}

/// The lines of `s`: cut at each `\n` or `\r\n`, the last line ending optional.
pub open spec fn lines(s: Seq<char>) -> Seq<Seq<char>>
    decreases s.len(),
{
    let i = index_or_len(s, '\n');
    if s.len() == 0 {
        Seq::empty()
    } else if 0 <= i < s.len() {
        seq![strip_cr(s.take(i))] + lines(s.skip(i + 1))
    } else {
        seq![s]
    }
}

/// The lines of `s`.
pub fn lines_of(s: &str) -> (r: Vec<String>)
    ensures
        texts(r@) == lines(s@),
{
    let v = chars_of(s);
    let mut out: Vec<String> = Vec::new();
    let mut from: usize = 0;
    assert(v@.skip(0) =~= s@);
    assert(texts(out@) + lines(s@) =~= lines(s@));
    while from < v.len()
        invariant
            v@ == s@,
            from <= v@.len(),
            texts(out@) + lines(v@.skip(from as int)) == lines(s@),
        decreases v@.len() - from,
    {
        let i: usize = next_index(&v, '\n', from);
        let ghost rest = v@.skip(from as int);
        let ghost before = texts(out@);
        if i < v.len() {
            let end: usize = if i > from && v[i - 1] == '\r' {
                i - 1
            } else {
                i
            };
            let piece = text_range(&v, from, end);
            assert(piece@ =~= strip_cr(rest.take(i - from)));
            out.push(piece);
            assert(rest.skip(i - from + 1) =~= v@.skip(i + 1));
            assert(texts(out@) =~= before.push(piece@));
            assert(texts(out@) + lines(v@.skip(i + 1)) =~= before + (seq![
                strip_cr(rest.take(i - from)),
            ] + lines(rest.skip(i - from + 1))));
            from = i + 1;
        } else {
            let piece = text_range(&v, from, v.len());
            assert(piece@ =~= rest);
            out.push(piece);
            assert(texts(out@) =~= before + seq![rest]);
            assert(v@.skip(v@.len() as int).len() == 0);
            assert(texts(out@) + lines(v@.skip(v@.len() as int)) =~= texts(out@));
            from = v.len();
        }
    }
    assert(texts(out@) + lines(v@.skip(from as int)) =~= texts(out@));
    out
}

/// The texts of `v` in order, with `sep` between each two.
pub open spec fn join(v: Seq<Seq<char>>, sep: Seq<char>) -> Seq<char>
    decreases v.len(),
{
    if v.len() == 0 {
        Seq::empty()
    } else if v.len() == 1 {
        v[0]
    } else {
        join(v.drop_last(), sep) + sep + v.last()
    }
}

/// The texts of `v` in order, with `sep` between each two.
pub fn joined(v: &Vec<String>, sep: &str) -> (r: String)
    ensures
        r@ == join(texts(v@), sep@),
{
    let mut out = String::new();
    let mut i: usize = 0;
    while i < v.len()
        invariant
            i <= v@.len(),
            out@ == join(texts(v@).take(i as int), sep@),
        decreases v@.len() - i,
    {
        assert(texts(v@).take(i + 1).drop_last() =~= texts(v@).take(i as int));
        if i > 0 {
            out.append(sep);
        } else {
            assert(out@ + v@[0]@ =~= v@[0]@);
        }
        out.append(v[i].as_str());
        i = i + 1;
    }
    assert(texts(v@).take(i as int) =~= texts(v@));
    out
}

/// Whether `x` is one of the texts of `v`.
pub fn is_among(x: &str, v: &Vec<String>) -> (r: bool)
    ensures
        r == texts(v@).contains(x@),
{
    let mut i: usize = 0;
    while i < v.len()
        invariant
            i <= v@.len(),
            forall|j: int| 0 <= j < i ==> #[trigger] texts(v@)[j] != x@,
        decreases v@.len() - i,
    {
        if same(v[i].as_str(), x) {
            assert(texts(v@)[i as int] == x@);
            return true;
        }
        i = i + 1;
    }
    false
}

// ---------------------------------------------------------------------------
// Bytes and columns
// ---------------------------------------------------------------------------

/// How many bytes a character takes in UTF-8.
pub open spec fn char_width(c: char) -> int {
    let u = c as int;
    if u < 0x80 {
        1
    } else if u < 0x800 {
        2
    } else if u < 0x1_0000 {
        3
    } else {
        4
    }
}

/// How many bytes a text takes in UTF-8.
pub open spec fn byte_len(s: Seq<char>) -> int
    decreases s.len(),
{
    if s.len() == 0 {
        0
    } else {
        byte_len(s.drop_last()) + char_width(s.last())
    }
}

/// How many bytes a character takes.
pub fn width(c: char) -> (r: u128)
    ensures
        r == char_width(c),
        1 <= r <= 4,
{
    let u: u32 = c as u32;
    if u < 0x80 {
        1
    } else if u < 0x800 {
        2
    } else if u < 0x1_0000 {
        3
    } else {
        4
    }
}

/// How many bytes a text takes.
pub fn bytes_in(v: &Vec<char>) -> (r: u128)
    ensures
        r == byte_len(v@),
        r <= 4 * v@.len(),
{
    let mut n: u128 = 0;
    let mut i: usize = 0;
    assert(v@.take(0) =~= Seq::<char>::empty());
    while i < v.len()
        invariant
            i <= v@.len(),
            n == byte_len(v@.take(i as int)),
            n <= 4 * i,
        decreases v@.len() - i,
    {
        assert(v@.take(i + 1).drop_last() =~= v@.take(i as int));
        n = n + width(v[i]);
        i = i + 1;
    }
    assert(v@.take(i as int) =~= v@);
    n
}

/// The characters in the first bytes of `s`, from the first `k` characters on:
/// there are none where the cut would fall inside a character.
pub open spec fn byte_prefix_from(s: Seq<char>, n: int, k: int) -> Option<Seq<char>>
    decreases s.len() - k,
{
    if byte_len(s.take(k)) == n {
        Some(s.take(k))
    } else if k >= s.len() {
        None
    } else {
        byte_prefix_from(s, n, k + 1)
    }
}

/// The first `n` bytes of `s`, if they are whole characters.
pub open spec fn byte_prefix(s: Seq<char>, n: int) -> Option<Seq<char>> {
    byte_prefix_from(s, n, 0)
}

/// The first `n` bytes of `s`, or all of it where they are not whole
/// characters.
pub open spec fn short_text(s: Seq<char>, n: int) -> Seq<char> {
    match byte_prefix(s, n) {
        Some(p) => p,
        None => s,
    }
}

/// The first `n` bytes of `s`, or all of it.
pub fn shortened(s: &str, n: usize) -> (r: String)
    ensures
        r@ == short_text(s@, n as int),
{
    let v = chars_of(s);
    let mut k: usize = 0;
    let mut size: u128 = 0;
    assert(v@.take(0) =~= Seq::<char>::empty());
    while k < v.len() && size != n as u128
        invariant
            k <= v@.len(),
            v@ == s@,
            size == byte_len(v@.take(k as int)),
            size <= 4 * k,
            byte_prefix(s@, n as int) == byte_prefix_from(s@, n as int, k as int),
        decreases v@.len() - k,
    {
        assert(v@.take(k + 1).drop_last() =~= v@.take(k as int));
        size = size + width(v[k]);
        k = k + 1;
    }
    if size == n as u128 {
        let r = text_range(&v, 0, k);
        assert(r@ =~= s@.take(k as int));
        return r;
    }
    s.to_owned()
}

/// `s` behind blanks up to `width` characters.
pub open spec fn pad_left(s: Seq<char>, width: int) -> Seq<char> {
    if s.len() >= width {
        s
    } else {
        Seq::new((width - s.len()) as nat, |i: int| ' ') + s
    }
}

/// `s` behind blanks up to `width` characters.
pub fn padded_left(s: &str, width: usize) -> (r: String)
    ensures
        r@ == pad_left(s@, width as int),
{
    let n: usize = s.unicode_len();
    if n >= width {
        return s.to_owned();
    }
    let mut out = String::new();
    let mut i: usize = 0;
    while i < width - n
        invariant
            n < width,
            i <= width - n,
            out@ =~= Seq::new(i as nat, |k: int| ' '),
        decreases width - n - i,
    {
        out.push(' ');
        i = i + 1;
    }
    out.concat(s)
}

/// Cutting a text at a character gives the two sides of its first occurrence;
/// a text without it is not cut.
pub proof fn law_cutting_gives_both_sides(s: Seq<char>, c: char)
    ensures
        split_once(s, c) is None <==> !s.contains(c),
        split_once(s, c) matches Some((a, b)) ==> s == a + seq![c] + b && !a.contains(c),
{
    lemma_index_or_len(s, c);
    let i = index_or_len(s, c);
    if i < s.len() {
        assert(s =~= s.take(i) + seq![c] + s.skip(i + 1));
        assert(s.contains(c));
    }
}

/// A text that is two sides of a character is cut into them, when the first
/// side is without it.
pub proof fn law_sides_are_cut_apart(a: Seq<char>, c: char, b: Seq<char>)
    requires
        !a.contains(c),
    ensures
        split_once(a + seq![c] + b, c) == Some((a, b)),
{
    let s = a + seq![c] + b;
    lemma_index_or_len(s, c);
    let i = index_or_len(s, c);
    assert(s[a.len() as int] == c);
    if i < a.len() {
        assert(s[i] == a[i]);
        assert(a.contains(c));
    }
    assert(i == a.len());
    assert(s.take(i) =~= a);
    assert(s.skip(i + 1) =~= b);
}

/// The characters that are taken off an end are of the set, and what stays does
/// not end with one.
pub proof fn law_trimmed_ends_are_of_the_set(s: Seq<char>, set: Seq<char>)
    ensures
        trim_end_of(s, set).is_prefix_of(s),
        forall|i: int|
            trim_end_of(s, set).len() <= i < s.len() ==> set.contains(#[trigger] s[i]),
        trim_end_of(s, set).len() > 0 ==> !set.contains(trim_end_of(s, set).last()),
    decreases s.len(),
{
    if s.len() > 0 && set.contains(s.last()) {
        law_trimmed_ends_are_of_the_set(s.drop_last(), set);
        let t = trim_end_of(s, set);
        assert forall|i: int| t.len() <= i < s.len() implies set.contains(#[trigger] s[i]) by {
            if i < s.len() - 1 {
                assert(s.drop_last()[i] == s[i]);
            }
        }
    }
}

proof fn lemma_trim_start(s: Seq<char>)
    ensures
        trim_start(s).is_suffix_of(s),
        forall|i: int| 0 <= i < s.len() - trim_start(s).len() ==> is_space(#[trigger] s[i]),
        trim_start(s).len() > 0 ==> !is_space(trim_start(s)[0]),
    decreases s.len(),
{
    if s.len() > 0 && is_space(s[0]) {
        lemma_trim_start(s.skip(1));
        let t = trim_start(s);
        let k = s.len() - t.len();
        assert(t =~= s.skip(1).skip(k - 1));
        assert(s.skip(1).skip(k - 1) =~= s.skip(k));
        assert forall|i: int| 0 <= i < k implies is_space(#[trigger] s[i]) by {
            if i > 0 {
                assert(s.skip(1)[i - 1] == s[i]);
            }
        }
    } else {
        assert(s.skip(0) =~= s);
    }
}

proof fn lemma_trim_end(s: Seq<char>)
    ensures
        trim_end(s).is_prefix_of(s),
        forall|i: int| trim_end(s).len() <= i < s.len() ==> is_space(#[trigger] s[i]),
        trim_end(s).len() > 0 ==> !is_space(trim_end(s).last()),
    decreases s.len(),
{
    if s.len() > 0 && is_space(s.last()) {
        lemma_trim_end(s.drop_last());
        let t = trim_end(s);
        assert forall|i: int| t.len() <= i < s.len() implies is_space(#[trigger] s[i]) by {
            if i < s.len() - 1 {
                assert(s.drop_last()[i] == s[i]);
            }
        }
    }
}

/// Trimming takes white space off both ends and nothing else: what is left
/// neither begins nor ends with it, and a text that does not is left as it is.
pub proof fn law_trimming_takes_white_space_off(s: Seq<char>)
    ensures
        exists|a: int, b: int|
            0 <= a <= b <= s.len() && trim(s) == #[trigger] s.subrange(a, b) && (forall|i: int|
                0 <= i < a ==> is_space(#[trigger] s[i])) && (forall|i: int|
                b <= i < s.len() ==> is_space(#[trigger] s[i])),
        trim(s).len() > 0 ==> !is_space(trim(s)[0]) && !is_space(trim(s).last()),
        s.len() > 0 && !is_space(s[0]) && !is_space(s.last()) ==> trim(s) == s,
{
    lemma_trim_start(s);
    let t = trim_start(s);
    lemma_trim_end(t);
    let u = trim_end(t);
    let a = s.len() - t.len();
    let b = a + u.len();
    assert(t =~= s.skip(a));
    assert(u =~= s.subrange(a, b));
    assert forall|i: int| b <= i < s.len() implies is_space(#[trigger] s[i]) by {
        assert(t[i - a] == s[i]);
    }
    if u.len() > 0 {
        assert(u[0] == t[0]);
    }
}

/// Joining puts the separator between the texts: one text is itself, and one
/// more text comes behind a separator.
pub proof fn law_joining_separates(v: Seq<Seq<char>>, sep: Seq<char>, t: Seq<char>)
    ensures
        join(Seq::<Seq<char>>::empty(), sep) == Seq::<char>::empty(),
        join(seq![t], sep) == t,
        v.len() > 0 ==> join(v.push(t), sep) == join(v, sep) + sep + t,
{
    assert(v.push(t).drop_last() =~= v);
}

/// Lower case keeps everything but the upper-case letters of ASCII, each of which
/// becomes its lower-case letter.
pub proof fn law_lower_case_changes_letters_only(s: Seq<char>, i: int)
    requires
        0 <= i < s.len(),
    ensures
        ascii_lower(s).len() == s.len(),
        'A' <= s[i] <= 'Z' ==> ascii_lower(s)[i] as int == s[i] as int + 32,
        !('A' <= s[i] <= 'Z') ==> ascii_lower(s)[i] == s[i],
        'a' <= s[i] <= 'z' ==> ascii_upper(s)[i] as int == s[i] as int - 32,
        !('a' <= s[i] <= 'z') ==> ascii_upper(s)[i] == s[i],
        ascii_lower(ascii_lower(s)) == ascii_lower(s),
{
    assert(ascii_lower(ascii_lower(s)) =~= ascii_lower(s));
}

/// The text shows the value right behind the label.
pub open spec fn shows(t: Seq<char>, label: Seq<char>, value: Seq<char>) -> bool {
    exists|a: Seq<char>, b: Seq<char>| t == #[trigger] (a + label + value + b)
}

/// A text made of a label and a value, and anything around them, shows them.
pub proof fn lemma_shows(a: Seq<char>, label: Seq<char>, value: Seq<char>, b: Seq<char>)
    ensures
        shows(a + label + value + b, label, value),
{
}

/// What a part of a text shows, the text shows.
pub proof fn lemma_shows_around(a: Seq<char>, t: Seq<char>, b: Seq<char>, label: Seq<char>,
    value: Seq<char>)
    requires
        shows(t, label, value),
    ensures
        shows(a + t + b, label, value),
{
    let (x, y) = choose|x: Seq<char>, y: Seq<char>| t == #[trigger] (x + label + value + y);
    lemma_shows(a + x, label, value, y + b);
    assert(a + t + b =~= (a + x) + label + value + (y + b));
}

/// A padded text is the text with spaces on one side, of the width unless it is
/// longer itself.
pub proof fn law_padding_adds_spaces_only(s: Seq<char>, width: int)
    ensures
        pad_right(s, width).len() == if s.len() >= width {
            s.len() as int
        } else {
            width
        },
        s.is_prefix_of(pad_right(s, width)),
        forall|i: int|
            s.len() <= i < pad_right(s, width).len() ==> #[trigger] pad_right(s, width)[i] == ' ',
        pad_left(s, width).len() == pad_right(s, width).len(),
        s.is_suffix_of(pad_left(s, width)),
        forall|i: int|
            0 <= i < pad_left(s, width).len() - s.len() ==> #[trigger] pad_left(s, width)[i] == ' ',
    decreases width - s.len(),
{
    let l = pad_left(s, width);
    assert(l.subrange(l.len() - s.len(), l.len() as int) =~= s);
    if s.len() < width {
        law_padding_adds_spaces_only(s.push(' '), width);
        let r = pad_right(s, width);
        assert(s.push(' ') == r.take(s.len() as int + 1));
        assert(r.take(s.len() as int) =~= r.take(s.len() as int + 1).take(s.len() as int));
        assert(r.take(s.len() as int) =~= s);
        assert(r[s.len() as int] == r.take(s.len() as int + 1)[s.len() as int]);
    } else {
        assert(s.take(s.len() as int) =~= s);
    }
}

/// What is taken off an end is what stood there, and is taken off whenever it
/// does.
pub proof fn law_ends_are_taken_off(s: Seq<char>, p: Seq<char>)
    ensures
        strip_suffix(s + p, p) == Some(s),
        strip_suffix(s, p) matches Some(r) ==> s == r + p,
        strip_prefix(p + s, p) == Some(s),
        strip_prefix(s, p) matches Some(r) ==> s == p + r,
{
    let t = s + p;
    assert(t.subrange(t.len() - p.len(), t.len() as int) =~= p);
    assert(t.take(t.len() - p.len()) =~= s);
    let u = p + s;
    assert(u.take(p.len() as int) =~= p);
    assert(u.skip(p.len() as int) =~= s);
    if let Some(r) = strip_suffix(s, p) {
        assert(s =~= r + p);
    }
    if let Some(r) = strip_prefix(s, p) {
        assert(s =~= p + r);
    }
}

/// A truth value is written in its own word.
pub proof fn law_truth_has_two_words(b: bool)
    ensures
        bool_text(b) == "true"@ <==> b,
        bool_text(b) == "false"@ <==> !b,
{
    reveal_strlit("true");
    reveal_strlit("false");
    assert("true"@[0] == 't' && "false"@[0] == 'f');
}

/// The width of a character is the number of its bytes in UTF-8.
pub proof fn law_widths_are_of_the_code_point(c: char)
    ensures
        char_width(c) == 1 <==> (c as int) < 0x80,
        char_width(c) <= 2 <==> (c as int) < 0x800,
        char_width(c) <= 3 <==> (c as int) < 0x10000,
        1 <= char_width(c) <= 4,
{
}

/// A label and its value alone are shown.
pub proof fn lemma_shows_first(label: Seq<char>, value: Seq<char>)
    ensures
        shows(label + value, label, value),
{
    lemma_shows(Seq::empty(), label, value, Seq::empty());
    assert(label + value =~= Seq::<char>::empty() + label + value + Seq::<char>::empty());
}

/// A text that ends in a label and its value shows them.
pub proof fn lemma_shows_last(a: Seq<char>, label: Seq<char>, value: Seq<char>)
    ensures
        shows(a + label + value, label, value),
{
    lemma_shows(a, label, value, Seq::empty());
    assert(a + label + value =~= a + label + value + Seq::<char>::empty());
}

/// What is shown stays so behind another text.
pub proof fn lemma_shows_behind(a: Seq<char>, t: Seq<char>, label: Seq<char>, value: Seq<char>)
    requires
        shows(t, label, value),
    ensures
        shows(a + t, label, value),
{
    lemma_shows_around(a, t, Seq::empty(), label, value);
    assert(a + t =~= a + t + Seq::<char>::empty());
}

/// What is shown stays so before another text.
pub proof fn lemma_shows_more(t: Seq<char>, b: Seq<char>, label: Seq<char>, value: Seq<char>)
    requires
        shows(t, label, value),
    ensures
        shows(t + b, label, value),
{
    lemma_shows_around(Seq::empty(), t, b, label, value);
    assert(t + b =~= Seq::<char>::empty() + t + b);
}

/// What is shown stays so before four more texts.
pub proof fn lemma_shows_more4(
    t: Seq<char>,
    a: Seq<char>,
    b: Seq<char>,
    c: Seq<char>,
    d: Seq<char>,
    label: Seq<char>,
    value: Seq<char>,
)
    requires
        shows(t, label, value),
    ensures
        shows(t + a + b + c + d, label, value),
{
    lemma_shows_more(t, a, label, value);
    lemma_shows_more(t + a, b, label, value);
    lemma_shows_more(t + a + b, c, label, value);
    lemma_shows_more(t + a + b + c, d, label, value);
}

/// White space is what Unicode calls so, and nothing else.
pub proof fn law_white_space_is_listed(c: char)
    ensures
        is_space(c) <==> c == '\t' || c == '\n' || c == '\u{b}' || c == '\u{c}' || c == '\r' || c
            == ' ' || c == '\u{85}' || c == '\u{a0}' || c == '\u{1680}' || c == '\u{2000}' || c
            == '\u{2001}' || c == '\u{2002}' || c == '\u{2003}' || c == '\u{2004}' || c
            == '\u{2005}' || c == '\u{2006}' || c == '\u{2007}' || c == '\u{2008}' || c
            == '\u{2009}' || c == '\u{200a}' || c == '\u{2028}' || c == '\u{2029}' || c
            == '\u{202f}' || c == '\u{205f}' || c == '\u{3000}',
{
}

/// What is found is the first place from there on at which the text stands, and it
/// is found whenever it stands anywhere there.
pub proof fn law_the_first_place_is_found(s: Seq<char>, p: Seq<char>, from: int)
    requires
        0 <= from,
    ensures
        find_from(s, p, from) matches Some(i) ==> from <= i && i + p.len() <= s.len() && s.subrange(
            i,
            i + p.len(),
        ) == p && (forall|k: int|
            from <= k < i ==> #[trigger] s.subrange(k, k + p.len()) != p),
        find_from(s, p, from) is None ==> forall|k: int|
            from <= k && k + p.len() <= s.len() ==> #[trigger] s.subrange(k, k + p.len()) != p,
    decreases s.len() + 1 - from,
{
    if from + p.len() <= s.len() && !occurs_at(s, p, from) {
        law_the_first_place_is_found(s, p, from + 1);
    }
}

/// A number is filled up with zeros before it, to the width unless it is longer
/// itself.
pub proof fn law_zeros_stand_before(s: Seq<char>, width: int)
    ensures
        zero_padded(s, width).len() == if s.len() >= width {
            s.len() as int
        } else {
            width
        },
        s.is_suffix_of(zero_padded(s, width)),
        forall|i: int|
            0 <= i < zero_padded(s, width).len() - s.len() ==> #[trigger] zero_padded(s, width)[i]
                == '0',
    decreases width - s.len(),
{
    let z = zero_padded(s, width);
    if s.len() < width {
        let t = seq!['0'] + s;
        law_zeros_stand_before(t, width);
        let tail = z.subrange(z.len() - t.len(), z.len() as int);
        assert(tail == t);
        assert(z.subrange(z.len() - s.len(), z.len() as int) =~= tail.skip(1));
        assert(t.skip(1) =~= s);
        assert(z[z.len() - t.len()] == tail[0]);
    } else {
        assert(s.subrange(0, s.len() as int) =~= s);
    }
}

/// A shortened text is the beginning of the text that has the bytes, or the whole
/// text where no beginning has.
pub proof fn law_shortened_texts_are_beginnings(s: Seq<char>, n: int)
    ensures
        short_text(s, n).is_prefix_of(s),
        short_text(s, n) == s || byte_len(short_text(s, n)) == n,
        (exists|k: int| 0 <= k <= s.len() && byte_len(#[trigger] s.take(k)) == n) ==> byte_len(
            short_text(s, n),
        ) == n,
{
    lemma_byte_prefix(s, n, 0);
    assert(s.take(s.len() as int) =~= s);
}

proof fn lemma_byte_prefix(s: Seq<char>, n: int, k: int)
    requires
        0 <= k <= s.len(),
    ensures
        byte_prefix_from(s, n, k) matches Some(p) ==> p.is_prefix_of(s) && byte_len(p) == n,
        byte_prefix_from(s, n, k) is None ==> forall|i: int|
            k <= i <= s.len() ==> byte_len(#[trigger] s.take(i)) != n,
    decreases s.len() - k,
{
    if byte_len(s.take(k)) == n {
        let p = s.take(k);
        assert(s.take(p.len() as int) =~= p);
    } else if k < s.len() {
        lemma_byte_prefix(s, n, k + 1);
    }
}

/// A number is read only of digits, with or without a plus before them.
pub proof fn law_numbers_are_digits(s: Seq<char>, max: int, i: int)
    ensures
        s.len() == 0 ==> parsed(s, max) is None,
        s == seq!['+'] ==> parsed(s, max) is None,
        (0 < i < s.len() && !('0' <= s[i] <= '9')) ==> parsed(s, max) is None,
        (s.len() > 0 && !('0' <= s[0] <= '9') && s[0] != '+') ==> parsed(s, max) is None,
        (s.len() > 0 && s[0] != '+') ==> parsed(seq!['+'] + s, max) == parsed(s, max),
{
    if 0 < i < s.len() && !('0' <= s[i] <= '9') {
        if s[0] == '+' {
            assert(s.skip(1)[i - 1] == s[i]);
        }
    }
    assert((seq!['+'] + s).skip(1) =~= s);
}

/// The value of digits is that of all but the last, ten times, and the last.
pub proof fn law_digits_count_by_tens(s: Seq<char>, c: char)
    requires
        '0' <= c <= '9',
    ensures
        digits_value(s.push(c)) == digits_value(s) * 10 + (c as int - '0' as int),
        digits_value(Seq::empty()) == 0,
{
    assert(s.push(c).drop_last() =~= s);
}

/// A text in which nothing is to be replaced stays as it is.
pub proof fn law_nothing_else_is_replaced(s: Seq<char>, p: Seq<char>, r: Seq<char>)
    requires
        p.len() > 0,
    ensures
        (forall|k: int|
            0 <= k && k + p.len() <= s.len() ==> #[trigger] s.subrange(k, k + p.len()) != p)
            ==> replace(s, p, r) == s,
        replace(p, p, r) == r,
{
    if forall|k: int| 0 <= k && k + p.len() <= s.len() ==> #[trigger] s.subrange(k, k + p.len()) != p {
        lemma_not_replaced(s, p, r, 0);
        assert(s.skip(0) =~= s);
    }
    assert(p.subrange(0, p.len() as int) =~= p);
    assert(occurs_at(p, p, 0));
    assert(replace_from(p, p, r, p.len() as int) =~= Seq::<char>::empty());
    assert(replace_from(p, p, r, 0) == r + replace_from(p, p, r, p.len() as int));
    assert(r + Seq::<char>::empty() =~= r);
}

proof fn lemma_not_replaced(s: Seq<char>, p: Seq<char>, r: Seq<char>, i: int)
    requires
        p.len() > 0,
        0 <= i <= s.len(),
        forall|k: int|
            0 <= k && k + p.len() <= s.len() ==> #[trigger] s.subrange(k, k + p.len()) != p,
    ensures
        replace_from(s, p, r, i) == s.skip(i),
    decreases s.len() - i,
{
    if i < s.len() {
        lemma_not_replaced(s, p, r, i + 1);
        assert(!occurs_at(s, p, i));
        assert(seq![s[i]] + s.skip(i + 1) =~= s.skip(i));
    } else {
        assert(s.skip(i) =~= Seq::<char>::empty());
    }
}

/// A text is cut at every place of the character: what stands before the first is a
/// piece, and what stands behind is cut in the same way.
pub proof fn law_every_place_is_cut(a: Seq<char>, c: char, b: Seq<char>)
    requires
        !a.contains(c),
    ensures
        split(a, c) == seq![a],
        split(a + seq![c] + b, c) == seq![a] + split(b, c),
{
    lemma_index_or_len(a, c);
    let s = a + seq![c] + b;
    lemma_first_index(a, c, b);
    assert(s.take(a.len() as int) =~= a);
    assert(s.skip(a.len() as int + 1) =~= b);
}

/// A text is made of lines: what stands before the first end of line is one, without
/// a carriage return, and what stands behind is made of lines in the same way.
pub proof fn law_lines_end_at_every_end(a: Seq<char>, b: Seq<char>)
    requires
        !a.contains('\n'),
    ensures
        a.len() > 0 ==> lines(a) == seq![a],
        a.len() == 0 ==> lines(a).len() == 0,
        a.len() == 0 || a.last() != '\r' ==> lines(a + seq!['\n'] + b) == seq![a] + lines(b),
        lines((a + seq!['\r']) + seq!['\n'] + b) == seq![a] + lines(b),
{
    lemma_index_or_len(a, '\n');
    let s = a + seq!['\n'] + b;
    lemma_first_index(a, '\n', b);
    assert(s.take(a.len() as int) =~= a);
    assert(s.skip(a.len() as int + 1) =~= b);
    let r = a + seq!['\r'];
    assert(!r.contains('\n')) by {
        if r.contains('\n') {
            let k = choose|k: int| 0 <= k < r.len() && r[k] == '\n';
            if k < a.len() {
                assert(a[k] == '\n');
            }
        }
    }
    let t = r + seq!['\n'] + b;
    lemma_first_index(r, '\n', b);
    assert(t.take(r.len() as int) =~= r);
    assert(t.skip(r.len() as int + 1) =~= b);
    assert(r.drop_last() =~= a);
}

proof fn lemma_first_index(a: Seq<char>, c: char, b: Seq<char>)
    requires
        !a.contains(c),
    ensures
        index_or_len(a + seq![c] + b, c) == a.len(),
    decreases a.len(),
{
    let s = a + seq![c] + b;
    if a.len() > 0 {
        assert(a[0] != c);
        assert(!a.skip(1).contains(c)) by {
            if a.skip(1).contains(c) {
                let k = choose|k: int| 0 <= k < a.skip(1).len() && a.skip(1)[k] == c;
                assert(a[k + 1] == c);
            }
        }
        lemma_first_index(a.skip(1), c, b);
        assert(s.skip(1) =~= a.skip(1) + seq![c] + b);
    } else {
        assert(s[0] == c);
    }
}

} // verus!
