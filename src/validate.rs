//! Validators for payloads: percentages, package names, application names
//! and URLs. Each is total: it answers for every input.
use vstd::prelude::*;
use vstd::utf8::encode_utf8;
use crate::text::{chars_of, is_ascii_alnum, is_ascii_alnum_char, is_ascii_control_char,
    is_unicode_whitespace, is_whitespace_char};

verus! {

pub open spec fn is_digit(c: char) -> bool {
    '0' <= c && c <= '9'
}

pub open spec fn digit_value(c: char) -> nat {
    ((c as u32) - 48) as nat
}

/// The number written by the decimal digits `s`.
pub open spec fn digits_value(s: Seq<char>) -> nat
    decreases s.len(),
{
    if s.len() == 0 {
        0
    } else {
        digits_value(s.drop_last()) * 10 + digit_value(s.last())
    }
}

/// The digits of a percentage: `s` without one leading `+`.
pub open spec fn unsigned_digits(s: Seq<char>) -> Seq<char> {
    if s.len() > 0 && s[0] == '+' {
        s.subrange(1, s.len() as int)
    } else {
        s
    }
}

/// A percentage: one to three characters, an optional `+` and decimal
/// digits, at most 100.
pub open spec fn percent_of(s: Seq<char>) -> Option<u8> {
    let d = unsigned_digits(s);
    if 1 <= s.len() <= 3 && d.len() >= 1 && (forall|i: int| 0 <= i < d.len() ==> is_digit(d[i]))
        && digits_value(d) <= 100 {
        Some(digits_value(d) as u8)
    } else {
        None
    }
}

/// Parses a percentage between 0 and 100.
pub fn parse_percent_value(raw: &str) -> (r: Option<u8>)
    ensures
        r == percent_of(raw@),
{
    let cs = chars_of(raw);
    if cs.len() == 0 || cs.len() > 3 {
        return None;
    }
    let start: usize = if cs[0] == '+' {
        1
    } else {
        0
    };
    let ghost d = unsigned_digits(cs@);
    assert(d =~= cs@.subrange(start as int, cs@.len() as int));
    if start >= cs.len() {
        return None;
    }
    let mut value: u32 = 0;
    let mut i: usize = start;
    while i < cs.len()
        invariant
            start <= i <= cs@.len() <= 3,
            cs@ == raw@,
            d == unsigned_digits(raw@),
            d == cs@.subrange(start as int, cs@.len() as int),
            forall|k: int| start <= k < i ==> is_digit(cs@[k]),
            value as nat == digits_value(cs@.subrange(start as int, i as int)),
            value <= 999,
            i - start <= 3,
            value < pow10((i - start) as nat),
        decreases cs@.len() - i,
    {
        let c = cs[i];
        if !('0' <= c && c <= '9') {
            assert(!is_digit(d[i - start]));
            assert(!(forall|j: int| 0 <= j < d.len() ==> is_digit(d[j])));
            assert(percent_of(raw@) is None);
            return None;
        }
        assert(cs@.subrange(start as int, i + 1).drop_last() =~= cs@.subrange(
            start as int,
            i as int,
        ));
        let dv = (c as u32) - 48;
        assert(value * 10 + dv < pow10((i + 1 - start) as nat)) by {
            assert(pow10((i + 1 - start) as nat) == 10 * pow10((i - start) as nat));
        }
        assert(pow10(3) == 1000) by {
            reveal_with_fuel(pow10, 4);
        }
        assert(pow10((i + 1 - start) as nat) <= 1000) by {
            lemma_pow10_mono((i + 1 - start) as nat, 3);
        }
        value = value * 10 + dv;
        i = i + 1;
    }
    assert(cs@.subrange(start as int, cs@.len() as int) == d);
    if value > 100 {
        return None;
    }
    Some(value as u8)
}

pub open spec fn pow10(n: nat) -> nat
    decreases n,
{
    if n == 0 {
        1
    } else {
        10 * pow10((n - 1) as nat)
    }
}

pub proof fn lemma_pow10_mono(a: nat, b: nat)
    requires
        a <= b,
    ensures
        pow10(a) <= pow10(b),
    decreases b,
{
    if a < b {
        lemma_pow10_mono(a, (b - 1) as nat);
    }
}

pub open spec fn is_package_char(c: char) -> bool {
    is_ascii_alnum(c) || c == '+' || c == '-' || c == '.' || c == ':'
}

/// A package name: 1 to 64 characters from ASCII letters, digits and `+-.:`.
pub open spec fn valid_package_name(s: Seq<char>) -> bool {
    1 <= s.len() <= 64 && forall|i: int| 0 <= i < s.len() ==> is_package_char(s[i])
}

pub open spec fn is_app_char(c: char) -> bool {
    is_ascii_alnum(c) || c == '-' || c == '_' || c == '.'
}

/// An application identifier: 1 to 96 characters from `[A-Za-z0-9._-]`.
pub open spec fn valid_app_name(s: Seq<char>) -> bool {
    1 <= s.len() <= 96 && forall|i: int| 0 <= i < s.len() ==> is_app_char(s[i])
}

/// Whether `pkg` is a safe package name.
pub fn is_valid_package_name(pkg: &str) -> (r: bool)
    ensures
        r == valid_package_name(pkg@),
{
    let cs = chars_of(pkg);
    if cs.len() == 0 || cs.len() > 64 {
        return false;
    }
    let mut i: usize = 0;
    while i < cs.len()
        invariant
            i <= cs@.len(),
            cs@ == pkg@,
            forall|k: int| 0 <= k < i ==> is_package_char(cs@[k]),
        decreases cs@.len() - i,
    {
        let c = cs[i];
        if !(is_ascii_alnum_char(c) || c == '+' || c == '-' || c == '.' || c == ':') {
            return false;
        }
        i = i + 1;
    }
    true
}

/// Whether `app` is a safe application identifier.
pub fn is_valid_app_name(app: &str) -> (r: bool)
    ensures
        r == valid_app_name(app@),
{
    let cs = chars_of(app);
    if cs.len() == 0 || cs.len() > 96 {
        return false;
    }
    let mut i: usize = 0;
    while i < cs.len()
        invariant
            i <= cs@.len(),
            cs@ == app@,
            forall|k: int| 0 <= k < i ==> is_app_char(cs@[k]),
        decreases cs@.len() - i,
    {
        let c = cs[i];
        if !(is_ascii_alnum_char(c) || c == '-' || c == '_' || c == '.') {
            return false;
        }
        i = i + 1;
    }
    true
}

pub open spec fn starts_with(s: Seq<char>, p: Seq<char>) -> bool {
    p.len() <= s.len() && s.subrange(0, p.len() as int) == p
}

pub open spec fn ends_with(s: Seq<char>, p: Seq<char>) -> bool {
    p.len() <= s.len() && s.subrange(s.len() - p.len(), s.len() as int) == p
}

/// Whether `s` begins with `p`.
pub fn has_prefix(s: &Vec<char>, p: &Vec<char>) -> (r: bool)
    ensures
        r == starts_with(s@, p@),
{
    if p.len() > s.len() {
        return false;
    }
    let mut i: usize = 0;
    while i < p.len()
        invariant
            p@.len() <= s@.len(),
            i <= p@.len(),
            forall|k: int| 0 <= k < i ==> s@[k] == p@[k],
        decreases p@.len() - i,
    {
        if s[i] != p[i] {
            assert(s@.subrange(0, p@.len() as int)[i as int] != p@[i as int]);
            return false;
        }
        i = i + 1;
    }
    assert(s@.subrange(0, p@.len() as int) =~= p@);
    true
}

/// Whether `s` ends with `p`.
pub fn has_suffix(s: &Vec<char>, p: &Vec<char>) -> (r: bool)
    ensures
        r == ends_with(s@, p@),
{
    if p.len() > s.len() {
        return false;
    }
    let slen = s.len();
    let off = slen - p.len();
    let mut i: usize = 0;
    while i < p.len()
        invariant
            slen == s@.len(),
            p@.len() <= s@.len(),
            off == s@.len() - p@.len(),
            off + p@.len() == s@.len(),
            i <= p@.len(),
            forall|k: int| 0 <= k < i ==> s@[off + k] == p@[k],
        decreases p@.len() - i,
    {
        if s[off + i] != p[i] {
            assert(s@.subrange(off as int, s@.len() as int)[i as int] != p@[i as int]);
            return false;
        }
        i = i + 1;
    }
    assert(s@.subrange(off as int, s@.len() as int) =~= p@);
    true
}

pub open spec fn http_scheme() -> Seq<char> {
    seq!['h', 't', 't', 'p', ':', '/', '/']
}

pub open spec fn https_scheme() -> Seq<char> {
    seq!['h', 't', 't', 'p', 's', ':', '/', '/']
}

/// A URL safe to hand to a browser: at most 2048 bytes of UTF-8, starting
/// with `http://` or `https://`, with no control character or whitespace.
pub open spec fn safe_http_url(s: Seq<char>) -> bool {
    &&& s.len() > 0
    &&& encode_utf8(s).len() <= 2048
    &&& (starts_with(s, http_scheme()) || starts_with(s, https_scheme()))
    &&& forall|i: int|
        0 <= i < s.len() ==> !is_ascii_control_char(#[trigger] s[i]) && !is_unicode_whitespace(
            s[i],
        )
}

/// Whether `url` is an http(s) URL that is safe to open.
pub fn is_safe_http_url(url: &str) -> (r: bool)
    ensures
        r == safe_http_url(url@),
{
    let cs = chars_of(url);
    let byte_len = url.as_bytes().len();
    assert(byte_len == encode_utf8(url@).len());
    if cs.len() == 0 || byte_len > 2048 {
        return false;
    }
    let http = vec!['h', 't', 't', 'p', ':', '/', '/'];
    let https = vec!['h', 't', 't', 'p', 's', ':', '/', '/'];
    assert(http@ =~= http_scheme());
    assert(https@ =~= https_scheme());
    if !(has_prefix(&cs, &http) || has_prefix(&cs, &https)) {
        return false;
    }
    let mut i: usize = 0;
    while i < cs.len()
        invariant
            i <= cs@.len(),
            cs@ == url@,
            forall|k: int|
                0 <= k < i ==> !is_ascii_control_char(#[trigger] cs@[k]) && !is_unicode_whitespace(
                    cs@[k],
                ),
        decreases cs@.len() - i,
    {
        let c = cs[i];
        let n = c as u32;
        if n <= 0x1f || n == 0x7f || is_whitespace_char(c) {
            return false;
        }
        i = i + 1;
    }
    true
}

} // verus!
