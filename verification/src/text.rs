//! Byte- and character-level checks on the identifiers and version strings
//! that rollouts carry.
use vstd::prelude::*;
use vstd::string::StringSliceAdditionalSpecFns;
use vstd::utf8::*;

verus! {

broadcast use vstd::string::group_string_axioms;

pub open spec fn is_digit(b: u8) -> bool {
    48 <= b <= 57
}

pub open spec fn is_ascii_alphanumeric(b: u8) -> bool {
    ||| 48 <= b <= 57
    ||| 65 <= b <= 90
    ||| 97 <= b <= 122
}

/// The characters with the Unicode `White_Space` property.
pub open spec fn is_unicode_whitespace(c: char) -> bool {
    let v = c as u32;
    ||| 0x09 <= v <= 0x0D
    ||| v == 0x20
    ||| v == 0x85
    ||| v == 0xA0
    ||| v == 0x1680
    ||| 0x2000 <= v <= 0x200A
    ||| v == 0x2028
    ||| v == 0x2029
    ||| v == 0x202F
    ||| v == 0x205F
    ||| v == 0x3000
}

/// The characters of general category `Cc`.
pub open spec fn is_control_char(c: char) -> bool {
    let v = c as u32;
    v <= 0x1F || (0x7F <= v <= 0x9F)
}

/// The number of leading whitespace characters.
pub open spec fn leading_whitespace(s: Seq<char>) -> nat
    decreases s.len(),
{
    if s.len() > 0 && is_unicode_whitespace(s[0]) {
        1 + leading_whitespace(s.drop_first())
    } else {
        0
    }
}

/// The number of trailing whitespace characters.
pub open spec fn trailing_whitespace(s: Seq<char>) -> nat
    decreases s.len(),
{
    if s.len() > 0 && is_unicode_whitespace(s.last()) {
        1 + trailing_whitespace(s.drop_last())
    } else {
        0
    }
}

/// `s` without its leading and trailing whitespace.
pub open spec fn trim_chars(s: Seq<char>) -> Seq<char> {
    let rest = s.skip(leading_whitespace(s) as int);
    rest.take(rest.len() - trailing_whitespace(rest))
}

/// `str::trim`: the slice without leading and trailing `White_Space`
/// characters. The contract restates the standard library's documentation.
#[verifier::external_body]
pub(crate) fn trim_str(s: &str) -> (r: &str)
    ensures
        r@ == trim_chars(s@),
{
    s.trim()
}

/// Equality of two string slices, decided on their UTF-8 bytes.
pub fn str_eq(a: &str, b: &str) -> (r: bool)
    ensures
        r == (a@ == b@),
{
    let x = a.as_bytes();
    let y = b.as_bytes();
    proof {
        encode_utf8_decode_utf8(a@);
        encode_utf8_decode_utf8(b@);
    }
    if x.len() != y.len() {
        return false;
    }
    let mut i: usize = 0;
    while i < x.len()
        invariant
            x@ == a.spec_bytes(),
            y@ == b.spec_bytes(),
            x@.len() == y@.len(),
            i <= x@.len(),
            forall|j: int| 0 <= j < i ==> x@[j] == y@[j],
        decreases x@.len() - i,
    {
        if x[i] != y[i] {
            return false;
        }
        i = i + 1;
    }
    assert(x@ =~= y@);
    true
}

/// Byte-wise equality of two byte slices.
pub fn bytes_eq(x: &[u8], y: &[u8]) -> (r: bool)
    ensures
        r == (x@ == y@),
{
    if x.len() != y.len() {
        return false;
    }
    let mut i: usize = 0;
    while i < x.len()
        invariant
            x@.len() == y@.len(),
            i <= x@.len(),
            forall|j: int| 0 <= j < i ==> x@[j] == y@[j],
        decreases x@.len() - i,
    {
        if x[i] != y[i] {
            return false;
        }
        i = i + 1;
    }
    assert(x@ =~= y@);
    true
}

/// Whether any character of `s` is a control character.
pub fn has_control_char(s: &str) -> (r: bool)
    ensures
        r == exists|i: int| 0 <= i < s@.len() && is_control_char(#[trigger] s@[i]),
{
    let mut found = false;
    for c in it: s.chars()
        invariant
            it.seq() == s@,
            found == exists|j: int| 0 <= j < it.index() && is_control_char(#[trigger] s@[j]),
    {
        let v = c as u32;
        if v <= 0x1F || (0x7F <= v && v <= 0x9F) {
            found = true;
        }
    }
    found
}

/// The first index at or after `start` that holds `c`, or the length.
pub open spec fn find_byte(b: Seq<u8>, start: int, c: u8) -> int
    decreases b.len() - start,
{
    if start >= b.len() {
        b.len() as int
    } else if b[start] == c {
        start
    } else {
        find_byte(b, start + 1, c)
    }
}

pub proof fn lemma_find_byte_bounds(b: Seq<u8>, start: int, c: u8)
    requires
        0 <= start <= b.len(),
    ensures
        start <= find_byte(b, start, c) <= b.len(),
        find_byte(b, start, c) < b.len() ==> b[find_byte(b, start, c)] == c,
        forall|k: int| start <= k < find_byte(b, start, c) ==> b[k] != c,
    decreases b.len() - start,
{
    if start < b.len() && b[start] != c {
        lemma_find_byte_bounds(b, start + 1, c);
    }
}

/// Finds `c` in `b` at or after `start`; returns the length when absent.
pub fn find_byte_from(b: &[u8], start: usize, c: u8) -> (r: usize)
    requires
        start <= b@.len(),
    ensures
        r == find_byte(b@, start as int, c),
        start <= r <= b@.len(),
{
    let mut i = start;
    proof {
        lemma_find_byte_bounds(b@, start as int, c);
    }
    while i < b.len()
        invariant
            start <= i <= b@.len(),
            find_byte(b@, i as int, c) == find_byte(b@, start as int, c),
        decreases b@.len() - i,
    {
        if b[i] == c {
            return i;
        }
        i = i + 1;
    }
    i
}

/// The value of a run of decimal digits.
pub open spec fn digits_value(s: Seq<u8>) -> nat
    decreases s.len(),
{
    if s.len() == 0 {
        0
    } else {
        digits_value(s.drop_last()) * 10 + (s.last() - 48) as nat
    }
}

pub open spec fn all_digits(s: Seq<u8>) -> bool {
    forall|i: int| 0 <= i < s.len() ==> is_digit(#[trigger] s[i])
}

/// `u16::from_str`: an optional `+` followed by at least one decimal digit,
/// with a value that fits in `u16`.
pub open spec fn spec_parse_u16(s: Seq<u8>) -> Option<u16> {
    let d = if s.len() > 0 && s[0] == 43 {
        s.drop_first()
    } else {
        s
    };
    if d.len() > 0 && all_digits(d) && digits_value(d) <= u16::MAX {
        Some(digits_value(d) as u16)
    } else {
        None
    }
}

proof fn lemma_digits_value_prefix_grows(s: Seq<u8>, k: int)
    requires
        0 <= k <= s.len(),
        all_digits(s),
    ensures
        digits_value(s.take(k)) <= digits_value(s),
    decreases s.len() - k,
{
    if k < s.len() {
        lemma_digits_value_prefix_grows(s, k + 1);
        assert(s.take(k + 1).drop_last() =~= s.take(k));
        assert(is_digit(s[k]));
    } else {
        assert(s.take(k) =~= s);
    }
}

/// Parses `b[start..end]` as `u16::from_str` does.
pub fn parse_u16(b: &[u8], start: usize, end: usize) -> (r: Option<u16>)
    requires
        start <= end <= b@.len(),
    ensures
        r == spec_parse_u16(b@.subrange(start as int, end as int)),
{
    let ghost s = b@.subrange(start as int, end as int);
    let mut first = start;
    if start < end && b[start] == 43 {
        first = start + 1;
    }
    let ghost d = b@.subrange(first as int, end as int);
    assert(d =~= (if s.len() > 0 && s[0] == 43 {
        s.drop_first()
    } else {
        s
    }));
    if first == end {
        return None;
    }
    let mut i = first;
    while i < end
        invariant
            first <= i <= end <= b@.len(),
            s == b@.subrange(start as int, end as int),
            d == (if s.len() > 0 && s[0] == 43 {
                s.drop_first()
            } else {
                s
            }),
            d == b@.subrange(first as int, end as int),
            forall|j: int| first <= j < i ==> is_digit(#[trigger] b@[j]),
        decreases end - i,
    {
        if b[i] < 48 || b[i] > 57 {
            assert(!is_digit(d[i - first]));
            return None;
        }
        i = i + 1;
    }
    assert(all_digits(d)) by {
        assert forall|j: int| 0 <= j < d.len() implies is_digit(#[trigger] d[j]) by {
            assert(d[j] == b@[first + j]);
        }
    }
    let mut value: u32 = 0;
    let mut k = first;
    while k < end
        invariant
            first <= k <= end <= b@.len(),
            s == b@.subrange(start as int, end as int),
            d == (if s.len() > 0 && s[0] == 43 {
                s.drop_first()
            } else {
                s
            }),
            d == b@.subrange(first as int, end as int),
            all_digits(d),
            value as nat == digits_value(d.take(k - first)),
            value <= u16::MAX,
        decreases end - k,
    {
        assert(d.take(k - first + 1).drop_last() =~= d.take(k - first));
        assert(d[k - first] == b@[k as int]);
        assert(d.take(k - first + 1).last() == d[k - first]);
        assert(digits_value(d.take(k - first + 1)) == digits_value(d.take(k - first)) * 10 + (
        d[k - first] - 48) as nat);
        let next = value * 10 + (b[k] - 48) as u32;
        if next > 65535 {
            proof {
                lemma_digits_value_prefix_grows(d, k - first + 1);
            }
            return None;
        }
        value = next;
        k = k + 1;
    }
    assert(d.take(k - first) =~= d);
    Some(value as u16)
}

/// `i64::from_str`: an optional `+` or `-` followed by at least one decimal
/// digit, with a value that fits in `i64`.
pub open spec fn spec_parse_i64(s: Seq<u8>) -> Option<i64> {
    let signed = s.len() > 0 && (s[0] == 43 || s[0] == 45);
    let d = if signed {
        s.drop_first()
    } else {
        s
    };
    let v: int = if s.len() > 0 && s[0] == 45 {
        -(digits_value(d) as int)
    } else {
        digits_value(d) as int
    };
    if d.len() > 0 && all_digits(d) && i64::MIN <= v <= i64::MAX {
        Some(v as i64)
    } else {
        None
    }
}

/// Parses `value` as `i64::from_str` does.
#[verifier::rlimit(40)]
pub fn parse_i64(value: &str) -> (r: Option<i64>)
    ensures
        r == spec_parse_i64(value.spec_bytes()),
{
    let b = value.as_bytes();
    let ghost s = b@;
    let negative = b.len() > 0 && b[0] == 45;
    let first: usize = if b.len() > 0 && (b[0] == 43 || b[0] == 45) {
        1
    } else {
        0
    };
    let ghost d = s.subrange(first as int, s.len() as int);
    assert(d =~= (if s.len() > 0 && (s[0] == 43 || s[0] == 45) {
        s.drop_first()
    } else {
        s
    }));
    if first == b.len() {
        return None;
    }
    let mut i = first;
    while i < b.len()
        invariant
            first <= i <= b@.len(),
            s == b@,
            s == value.spec_bytes(),
            d == s.subrange(first as int, s.len() as int),
            d == (if s.len() > 0 && (s[0] == 43 || s[0] == 45) {
                s.drop_first()
            } else {
                s
            }),
            forall|j: int| first <= j < i ==> is_digit(#[trigger] b@[j]),
        decreases b@.len() - i,
    {
        if b[i] < 48 || b[i] > 57 {
            assert(!is_digit(d[i - first]));
            return None;
        }
        i = i + 1;
    }
    assert(all_digits(d)) by {
        assert forall|j: int| 0 <= j < d.len() implies is_digit(#[trigger] d[j]) by {
            assert(d[j] == b@[first + j]);
        }
    }
    let mut magnitude: u64 = 0;
    let mut k = first;
    while k < b.len()
        invariant
            first <= k <= b@.len(),
            s == b@,
            s == value.spec_bytes(),
            d == s.subrange(first as int, s.len() as int),
            d == (if s.len() > 0 && (s[0] == 43 || s[0] == 45) {
                s.drop_first()
            } else {
                s
            }),
            negative == (s.len() > 0 && s[0] == 45),
            all_digits(d),
            magnitude as nat == digits_value(d.take(k - first)),
            magnitude <= 9223372036854775808,
        decreases b@.len() - k,
    {
        assert(d.take(k - first + 1).drop_last() =~= d.take(k - first));
        assert(d[k - first] == b@[k as int]);
        assert(d.take(k - first + 1).last() == d[k - first]);
        assert(digits_value(d.take(k - first + 1)) == digits_value(d.take(k - first)) * 10 + (
        d[k - first] - 48) as nat);
        let next = (magnitude as u128) * 10 + (b[k] - 48) as u128;
        if next > 9223372036854775808 {
            proof {
                lemma_digits_value_prefix_grows(d, k - first + 1);
            }
            return None;
        }
        magnitude = next as u64;
        k = k + 1;
    }
    assert(d.take(k - first) =~= d);
    if negative {
        Some((-(magnitude as i128)) as i64)
    } else if magnitude <= 9223372036854775807 {
        Some(magnitude as i64)
    } else {
        None
    }
}

} // verus!
