//! `vanity`: addresses that begin or end as one likes.
use vstd::prelude::*;

use crate::codec::{hex_bytes, hex_digit, hex_encode, hex_text, law_hex_round_trips};
use crate::commands::send::{all_hex, is_all_hex};
use crate::curve::{fresh_secret, secp_public, secp_public_key};
use crate::error::{invalid, invalid_args, CliError, CliErrorView};
use crate::hash::{keccak256, keccak256_of};
use crate::text::{
    ascii_lower, byte_len, bytes_in, chars_of, dec, decimal, digit, ends_with, is_digit,
    lower_case, opt_text, starts_with, strip_prefix, texts, to_ascii_lower, to_lower_case,
    to_upper_char, trim, trimmed, upper_char,
    without_prefix,
};

verus! {

/// The digits of a pattern: without white space around it and without `0x`.
pub open spec fn pattern_digits(input: Seq<char>) -> Seq<char> {
    let t = trim(input);
    match strip_prefix(t, "0x"@) {
        Some(d) => d,
        None => match strip_prefix(t, "0X"@) {
            Some(d) => d,
            None => t,
        },
    }
}

/// What is wrong with a pattern, if anything is.
pub open spec fn pattern_fault(input: Seq<char>, field: Seq<char>) -> Option<Seq<char>> {
    let d = pattern_digits(input);
    if d.len() == 0 {
        Some(field + " pattern cannot be empty"@)
    } else if byte_len(d) > 40 {
        Some(field + " pattern too long (max 40 hex chars / 20 bytes)"@)
    } else if !all_hex(d) {
        Some(field + " must be a valid hex pattern (0-9, a-f, A-F)"@)
    } else {
        None
    }
}

/// The digits of a pattern in lower case; `field` names the argument.
pub fn parse_pattern(input: &str, field: &str) -> (r: Result<String, CliError>)
    ensures
        match r {
            Ok(p) => pattern_fault(input@, field@) is None && p@ == ascii_lower(
                pattern_digits(input@),
            ),
            Err(e) => pattern_fault(input@, field@) matches Some(m) && e@
                == CliErrorView::InvalidArgs(m),
        },
{
    let t = trimmed(input);
    let digits = match without_prefix(t.as_str(), "0x") {
        Some(d) => d,
        None => match without_prefix(t.as_str(), "0X") {
            Some(d) => d,
            None => t,
        },
    };
    let v = chars_of(digits.as_str());
    if v.len() == 0 {
        return Err(invalid_args(field.to_owned().concat(" pattern cannot be empty")));
    }
    if bytes_in(&v) > 40 {
        return Err(
            invalid_args(
                field.to_owned().concat(" pattern too long (max 40 hex chars / 20 bytes)"),
            ),
        );
    }
    if !is_all_hex(&v) {
        return Err(
            invalid_args(field.to_owned().concat(" must be a valid hex pattern (0-9, a-f, A-F)")),
        );
    }
    Ok(to_ascii_lower(digits.as_str()))
}

/// What a search looks for.
#[derive(Debug)]
pub struct Wanted {
    pub prefix: Option<String>,
    pub suffix: Option<String>,
}

/// The digits of an optional pattern.
pub open spec fn opt_digits(input: Option<Seq<char>>) -> Option<Seq<char>> {
    match input {
        Some(s) => Some(ascii_lower(pattern_digits(s))),
        None => None,
    }
}

/// What is wrong with an optional pattern.
pub open spec fn opt_fault(input: Option<Seq<char>>, field: Seq<char>) -> Option<Seq<char>> {
    match input {
        Some(s) => pattern_fault(s, field),
        None => None,
    }
}

/// What a search looks for, from its arguments.
pub fn wanted(starts: &Option<String>, ends: &Option<String>) -> (r: Result<Wanted, CliError>)
    ensures
        match r {
            Ok(w) => (starts is Some || ends is Some) && opt_fault(
                opt_text(*starts),
                "starts-with"@,
            ) is None && opt_fault(opt_text(*ends), "ends-with"@) is None && opt_text(w.prefix)
                == opt_digits(opt_text(*starts)) && opt_text(w.suffix) == opt_digits(
                opt_text(*ends),
            ),
            Err(e) => if starts is None && ends is None {
                e@ == CliErrorView::InvalidArgs(
                    "at least one of --starts-with or --ends-with is required"@,
                )
            } else {
                match opt_fault(opt_text(*starts), "starts-with"@) {
                    Some(m) => e@ == CliErrorView::InvalidArgs(m),
                    None => opt_fault(opt_text(*ends), "ends-with"@) matches Some(m) && e@
                        == CliErrorView::InvalidArgs(m),
                }
            },
        },
{
    if starts.is_none() && ends.is_none() {
        return Err(invalid("at least one of --starts-with or --ends-with is required"));
    }
    let prefix: Option<String> = match starts {
        Some(s) => match parse_pattern(s.as_str(), "starts-with") {
            Ok(p) => Some(p),
            Err(e) => return Err(e),
        },
        None => None,
    };
    let suffix: Option<String> = match ends {
        Some(s) => match parse_pattern(s.as_str(), "ends-with") {
            Ok(p) => Some(p),
            Err(e) => return Err(e),
        },
        None => None,
    };
    Ok(Wanted { prefix, suffix })
}

/// An address begins and ends as wanted.
pub open spec fn is_wanted(address: Seq<char>, w: Wanted) -> bool {
    &&& w.prefix matches Some(p) ==> p@.is_prefix_of(address)
    &&& w.suffix matches Some(s) ==> s@.is_suffix_of(address)
}

fn matches_wanted(address: &str, w: &Wanted) -> (r: bool)
    ensures
        r == is_wanted(address@, *w),
{
    let head = match &w.prefix {
        Some(p) => starts_with(address, p.as_str()),
        None => true,
    };
    let tail = match &w.suffix {
        Some(s) => ends_with(address, s.as_str()),
        None => true,
    };
    head && tail
}

/// The address of a public key in its long form: the last twenty bytes of the
/// digest of the key without its first byte, in lower-case hexadecimal.
pub open spec fn address_of(public: Seq<u8>) -> Seq<char> {
    hex_text(keccak256_of(public.skip(1)).skip(12))
}

/// The half-byte of a digest at a hexadecimal position.
pub open spec fn nibble(h: Seq<u8>, i: int) -> int {
    if i % 2 == 0 {
        h[i / 2] as int / 16
    } else {
        h[i / 2] as int % 16
    }
}

/// A lower-case address with the checksum of EIP-55 in the case of its letters:
/// a letter is in upper case where the digest of the address has a half-byte of
/// eight or more.
pub open spec fn checksummed(l: Seq<char>) -> Seq<char> {
    let h = keccak256_of(vstd::utf8::encode_utf8(l));
    Seq::new(
        l.len(),
        |i: int|
            if !is_digit(l[i]) && nibble(h, i) >= 8 {
                upper_char(l[i])
            } else {
                l[i]
            },
    )
}

/// The digest has a half-byte for each character that needs one: behind its
/// end there are only digits.
pub open spec fn fits_digest(l: Seq<char>) -> bool {
    forall|i: int| 64 <= i < l.len() ==> is_digit(#[trigger] l[i])
}

/// An address with its checksum, without `0x`.
pub fn eip55_checksum(address_hex: &str) -> (r: String)
    requires
        fits_digest(lower_case(address_hex@)),
    ensures
        r@ == checksummed(lower_case(address_hex@)),
{
    let lower = to_lower_case(address_hex);
    let v = chars_of(lower.as_str());
    let h = keccak256(lower.as_str().as_bytes());
    let ghost l = lower_case(address_hex@);
    let mut out = String::new();
    let mut i: usize = 0;
    while i < v.len()
        invariant
            i <= v@.len(),
            v@ == l,
            fits_digest(l),
            h@ == keccak256_of(vstd::utf8::encode_utf8(l)),
            h@.len() == 32,
            out@ =~= checksummed(l).take(i as int),
        decreases v@.len() - i,
    {
        let c = v[i];
        let shown = if digit(c) {
            c
        } else {
            assert(is_digit(l[i as int]) == is_digit(c));
            let half: u8 = if i % 2 == 0 {
                h[i / 2] / 16
            } else {
                h[i / 2] % 16
            };
            if half >= 8 {
                to_upper_char(c)
            } else {
                c
            }
        };
        assert(shown == checksummed(l)[i as int]);
        out.push(shown);
        i = i + 1;
    }
    assert(checksummed(l).take(i as int) =~= checksummed(l));
    out
}

/// An address with its checksum, if the digest reaches that far. On ASCII text
/// the lower case is that of the ASCII letters.
pub fn checked_checksum(address_hex: &str) -> (r: Option<String>)
    ensures
        opt_text(r) == if fits_digest(lower_case(address_hex@)) {
            Some(checksummed(lower_case(address_hex@)))
        } else {
            None
        },
        vstd::utf8::is_ascii_chars(address_hex@) ==> opt_text(r) == if fits_digest(
            ascii_lower(address_hex@),
        ) {
            Some(checksummed(ascii_lower(address_hex@)))
        } else {
            None
        },
{
    let lower = to_lower_case(address_hex);
    let v = chars_of(lower.as_str());
    let mut i: usize = 64;
    while i < v.len()
        invariant
            v@ == lower_case(address_hex@),
            vstd::utf8::is_ascii_chars(address_hex@) ==> v@ == ascii_lower(address_hex@),
            64 <= i,
            forall|k: int| 64 <= k < i && k < v@.len() ==> is_digit(#[trigger] v@[k]),
        decreases v@.len() - i,
    {
        if !digit(v[i]) {
            assert(!is_digit(lower_case(address_hex@)[i as int]));
            return None;
        }
        i = i + 1;
    }
    Some(eip55_checksum(address_hex))
}

/// A key whose address is as wanted.
#[derive(Debug)]
pub struct VanityResult {
    pub address: String,
    pub private_key: String,
}

/// The key, if its address is as wanted.
pub open spec fn candidate(secret: Seq<u8>, w: Wanted) -> Option<(Seq<char>, Seq<char>)> {
    match secp_public(secret, false) {
        Ok(public) => if is_wanted(address_of(public), w) {
            Some(("0x"@ + checksummed(address_of(public)), hex_text(secret)))
        } else {
            None
        },
        Err(_) => None,
    }
}

/// Tries a secret.
pub fn try_secret(secret: &Vec<u8>, w: &Wanted) -> (r: Option<VanityResult>)
    ensures
        match r {
            Some(v) => candidate(secret@, *w) == Some((v.address@, v.private_key@)),
            None => candidate(secret@, *w) is None,
        },
{
    let public = match secp_public_key(secret.as_slice(), false) {
        Ok(p) => p,
        Err(_) => return None,
    };
    let body = tail(&public, 1);
    let digest = keccak256(body.as_slice());
    let bytes = tail(&digest, 12);
    let address = hex_encode(bytes.as_slice());
    assert(address@.len() == 40);
    if !matches_wanted(address.as_str(), w) {
        return None;
    }
    assert(ascii_lower(address@) =~= address@);
    match checked_checksum(address.as_str()) {
        Some(shown) => Some(
            VanityResult {
                address: "0x".to_owned().concat(shown.as_str()),
                private_key: hex_encode(secret.as_slice()),
            },
        ),
        None => None,
    }
}

fn tail(v: &Vec<u8>, from: usize) -> (r: Vec<u8>)
    requires
        from <= v@.len(),
    ensures
        r@ == v@.skip(from as int),
{
    let mut out: Vec<u8> = Vec::new();
    let mut i: usize = from;
    while i < v.len()
        invariant
            from <= i <= v@.len(),
            out@ =~= v@.subrange(from as int, i as int),
        decreases v@.len() - i,
    {
        out.push(v[i]);
        i = i + 1;
    }
    assert(out@ =~= v@.skip(from as int));
    out
}

/// What was found, as `candidate` gives it.
pub open spec fn found_view(r: Option<VanityResult>) -> Option<(Seq<char>, Seq<char>)> {
    match r {
        Some(v) => Some((v.address@, v.private_key@)),
        None => None,
    }
}

/// Tries one fresh secret that has a public key: what comes back is what that
/// secret gives, and nothing comes back only where its address is not wanted.
/// Which secret is drawn is left to chance. The only failure is that of the
/// source of randomness, and its text is handed on.
pub fn try_fresh(w: &Wanted) -> (r: Result<Option<VanityResult>, String>)
    ensures
        r matches Ok(found) ==> exists|secret: Seq<u8>|
            secret.len() == 32 && secp_public(secret, false) is Ok && #[trigger] candidate(
                secret,
                *w,
            ) == found_view(found),
        w.prefix is None && w.suffix is None ==> (r matches Ok(found) ==> found is Some),
{
    match fresh_secret() {
        Ok(secret) => {
            let found = try_secret(&secret, w);
            assert(candidate(secret@, *w) == found_view(found));
            Ok(found)
        },
        Err(e) => Err(e),
    }
}

/// What a search prints before it begins.
pub open spec fn banner_lines(w: Wanted, threads: usize, count: usize) -> Seq<Seq<char>> {
    seq![
        "Generating vanity address with "@ + decimal(threads as int) + " threads..."@,
    ] + (match opt_text(w.prefix) {
        Some(p) => seq!["  Prefix: "@ + p],
        None => Seq::empty(),
    }) + (match opt_text(w.suffix) {
        Some(s) => seq!["  Suffix: "@ + s],
        None => Seq::empty(),
    }) + seq!["  Count:  "@ + decimal(count as int), ""@]
}

/// What a search prints before it begins.
pub fn banner(w: &Wanted, threads: usize, count: usize) -> (r: Vec<String>)
    ensures
        texts(r@) == banner_lines(*w, threads, count),
{
    let mut out: Vec<String> = Vec::new();
    out.push(
        "Generating vanity address with ".to_owned().concat(dec(threads as u128).as_str()).concat(
            " threads...",
        ),
    );
    if let Some(p) = &w.prefix {
        out.push("  Prefix: ".to_owned().concat(p.as_str()));
    }
    if let Some(s) = &w.suffix {
        out.push("  Suffix: ".to_owned().concat(s.as_str()));
    }
    out.push("  Count:  ".to_owned().concat(dec(count as u128).as_str()));
    out.push("".to_owned());
    assert(texts(out@) =~= banner_lines(*w, threads, count));
    out
}

/// What is printed of a found key.
pub fn show(v: &VanityResult) -> (r: String)
    ensures
        r@ == "Address:     "@ + v.address@ + "\nPrivate Key: "@ + v.private_key@ + "\n\n"@,
{
    "Address:     ".to_owned().concat(v.address.as_str()).concat("\nPrivate Key: ").concat(
        v.private_key.as_str(),
    ).concat("\n\n")
}

/// The checksum changes the case of letters and nothing else.
pub proof fn law_checksum_only_changes_case(lower: Seq<char>)
    ensures
        checksummed(lower).len() == lower.len(),
        ascii_lower(checksummed(lower)) == ascii_lower(lower),
{
    assert(ascii_lower(checksummed(lower)) =~= ascii_lower(lower));
}

/// What is found is a key with its address: the digits stand for the secret, the
/// address is that of its public key up to case, and it begins and ends as it was
/// wanted.
pub proof fn law_found_addresses_are_wanted(secret: Seq<u8>, w: Wanted)
    ensures
        candidate(secret, w) matches Some((address, key)) ==> {
            &&& hex_bytes(key) == secret
            &&& secp_public(secret, false) is Ok
            &&& "0x"@.is_prefix_of(address)
            &&& ascii_lower(address.skip(2)) == ascii_lower(
                address_of(secp_public(secret, false)->Ok_0),
            )
            &&& w.prefix is Some ==> ascii_lower(w.prefix->0@).is_prefix_of(
                ascii_lower(address.skip(2)),
            )
            &&& w.suffix is Some ==> ascii_lower(w.suffix->0@).is_suffix_of(
                ascii_lower(address.skip(2)),
            )
        },
        candidate(secret, w) is None ==> secp_public(secret, false) is Err || (w.prefix is Some
            && !w.prefix->0@.is_prefix_of(address_of(secp_public(secret, false)->Ok_0))) || (
        w.suffix is Some && !w.suffix->0@.is_suffix_of(
            address_of(secp_public(secret, false)->Ok_0),
        )),
{
    law_hex_round_trips(secret);
    reveal_strlit("0x");
    if let Ok(public) = secp_public(secret, false) {
        let l = address_of(public);
        law_checksum_only_changes_case(l);
        let address = "0x"@ + checksummed(l);
        assert(address.skip(2) =~= checksummed(l));
        if is_wanted(l, w) {
            if let Some(p) = w.prefix {
                assert(ascii_lower(l).take(p@.len() as int) =~= ascii_lower(l.take(p@.len() as int)));
            }
            if let Some(s) = w.suffix {
                let k = l.len() - s@.len();
                assert(ascii_lower(l).skip(k) =~= ascii_lower(l.skip(k)));
                assert(ascii_lower(l).subrange(k, l.len() as int) =~= ascii_lower(s@));
            }
        }
    }
}

proof fn lemma_hex_width(d: Seq<char>)
    requires
        all_hex(d),
    ensures
        byte_len(d) == d.len(),
    decreases d.len(),
{
    if d.len() > 0 {
        let front = d.drop_last();
        assert forall|i: int| 0 <= i < front.len() implies hex_digit(#[trigger] front[i]) is Some by {
            assert(hex_digit(d[i]) is Some);
        }
        lemma_hex_width(front);
        assert(hex_digit(d[d.len() - 1]) is Some);
    }
}

/// A pattern is one to forty hexadecimal digits, with or without `0x`, and
/// nothing else.
pub proof fn law_patterns_are_hexadecimal(input: Seq<char>, field: Seq<char>)
    ensures
        pattern_fault(input, field) is None <==> 0 < pattern_digits(input).len() <= 40 && all_hex(
            pattern_digits(input),
        ),
        !"0x"@.is_prefix_of(trim(input)) && !"0X"@.is_prefix_of(trim(input)) ==> pattern_digits(
            input,
        ) == trim(input),
        "0x"@.is_prefix_of(trim(input)) || "0X"@.is_prefix_of(trim(input)) ==> pattern_digits(input)
            == trim(input).skip(2),
{
    reveal_strlit("0x");
    reveal_strlit("0X");
    if all_hex(pattern_digits(input)) {
        lemma_hex_width(pattern_digits(input));
    }
}

/// A letter of an address is in upper case exactly where the hexadecimal text of
/// the digest of the address has a digit of eight or more.
pub proof fn law_checksum_follows_the_digest(l: Seq<char>, i: int)
    requires
        0 <= i < l.len(),
        i < hex_text(keccak256_of(vstd::utf8::encode_utf8(l))).len(),
    ensures
        ({
            let digit = hex_digit(hex_text(keccak256_of(vstd::utf8::encode_utf8(l)))[i]);
            &&& 'a' <= l[i] <= 'f' ==> (digit matches Some(n) && (n >= 8 ==> checksummed(
                l,
            )[i] as int == l[i] as int - 32) && (n < 8 ==> checksummed(l)[i] == l[i]))
            &&& '0' <= l[i] <= '9' ==> checksummed(l)[i] == l[i]
        }),
{
    let h = keccak256_of(vstd::utf8::encode_utf8(l));
    assert(hex_text(h)[i] == crate::json::hex_char(nibble(h, i)));
}

/// An address is the last twenty bytes of the digest of the public key without
/// its first byte.
pub proof fn law_addresses_are_the_end_of_the_digest(public: Seq<u8>)
    requires
        keccak256_of(public.subrange(1, public.len() as int)).len() == 32,
        public.len() > 0,
    ensures
        hex_bytes(address_of(public)).len() == 20,
        hex_bytes(address_of(public)) == keccak256_of(
            public.subrange(1, public.len() as int),
        ).subrange(12, 32),
{
    assert(public.skip(1) =~= public.subrange(1, public.len() as int));
    let b = keccak256_of(public.skip(1)).skip(12);
    law_hex_round_trips(b);
    assert(b =~= keccak256_of(public.skip(1)).subrange(12, 32));
}

/// The banner shows the threads, what is looked for and how many are wanted.
pub proof fn law_banners_show_the_search(w: Wanted, threads: usize, count: usize)
    ensures
        banner_lines(w, threads, count)[0] == "Generating vanity address with "@ + decimal(
            threads as int,
        ) + " threads..."@,
        w.prefix matches Some(p) ==> banner_lines(w, threads, count).contains("  Prefix: "@ + p@),
        w.suffix matches Some(s) ==> banner_lines(w, threads, count).contains("  Suffix: "@ + s@),
        banner_lines(w, threads, count).contains("  Count:  "@ + decimal(count as int)),
        banner_lines(w, threads, count).len() == 3 + (if w.prefix is Some {
            1int
        } else {
            0
        }) + (if w.suffix is Some {
            1int
        } else {
            0
        }),
{
    let l = banner_lines(w, threads, count);
    let k: int = if w.prefix is Some {
        2
    } else {
        1
    };
    let n: int = if w.suffix is Some {
        k + 1
    } else {
        k
    };
    if let Some(p) = w.prefix {
        assert(l[1] == "  Prefix: "@ + p@);
    }
    if let Some(s) = w.suffix {
        assert(l[k] == "  Suffix: "@ + s@);
    }
    assert(l[n] == "  Count:  "@ + decimal(count as int));
}

} // verus!
