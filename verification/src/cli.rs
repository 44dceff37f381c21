//! Which Codex CLI versions, model names, session identifiers and oversized
//! records the parser accepts.
use vstd::prelude::*;
use vstd::string::StringSliceAdditionalSpecFns;
use vstd::utf8::*;

use crate::text::{
    all_digits, find_byte, find_byte_from, has_control_char, is_ascii_alphanumeric, is_control_char,
    parse_u16, spec_parse_u16, trim_chars, trim_str,
};

verus! {

broadcast use vstd::string::group_string_axioms;

pub const MIN_SUPPORTED_CODEX_CLI_MINOR: u16 = 130;

pub const MAX_SUPPORTED_CODEX_CLI_MINOR: u16 = 151;

pub const MIN_REVIEWED_PROVIDER_ORDINAL_MINOR: u16 = 148;

pub const MAX_REVIEWED_PROVIDER_ORDINAL_MINOR: u16 = 151;

/// The second dot-separated part of a version, read as `u16`.
pub open spec fn cli_minor(b: Seq<u8>) -> Option<u16> {
    let i = find_byte(b, 0, 46);
    if i >= b.len() {
        None
    } else {
        spec_parse_u16(b.subrange(i + 1, find_byte(b, i + 1, 46)))
    }
}

/// Everything after the second dot of a version (empty when there is none).
pub open spec fn version_remainder(b: Seq<u8>) -> Seq<u8> {
    let i = find_byte(b, 0, 46);
    let j = find_byte(b, i + 1, 46);
    if i < b.len() && j < b.len() {
        b.subrange(j + 1, b.len() as int)
    } else {
        Seq::empty()
    }
}

pub open spec fn is_version_tail_byte(c: u8) -> bool {
    is_ascii_alphanumeric(c) || c == 46 || c == 45 || c == 43
}

/// A `0.<minor>.<rest>` version with a reviewed minor and a plain tail.
pub open spec fn spec_is_supported_cli_version(b: Seq<u8>) -> bool {
    &&& find_byte(b, 0, 46) == 1
    &&& b[0] == 48
    &&& cli_minor(b) matches Some(m) && MIN_SUPPORTED_CODEX_CLI_MINOR <= m
        <= MAX_SUPPORTED_CODEX_CLI_MINOR
    &&& version_remainder(b).len() > 0
    &&& forall|k: int|
        0 <= k < version_remainder(b).len() ==> is_version_tail_byte(
            #[trigger] version_remainder(b)[k],
        )
}

pub open spec fn is_model_name_byte(c: u8) -> bool {
    is_ascii_alphanumeric(c) || c == 46 || c == 45 || c == 95 || c == 47
}

/// A short model name of ASCII letters, digits and `. - _ /`.
pub open spec fn spec_valid_model_name(s: Seq<char>) -> bool {
    let b = encode_utf8(s);
    &&& b.len() > 0
    &&& b.len() <= 64
    &&& forall|k: int| 0 <= k < b.len() ==> is_model_name_byte(#[trigger] b[k])
}

/// The first candidate whose trimmed text is a valid model name.
pub open spec fn spec_first_valid_model(candidates: Seq<Option<Seq<char>>>) -> Option<Seq<char>>
    decreases candidates.len(),
{
    if candidates.len() == 0 {
        None
    } else {
        match candidates[0] {
            Some(c) if spec_valid_model_name(trim_chars(c)) => Some(trim_chars(c)),
            _ => spec_first_valid_model(candidates.drop_first()),
        }
    }
}

/// The characters of each candidate.
pub open spec fn candidate_chars(candidates: Seq<Option<&str>>) -> Seq<Option<Seq<char>>> {
    candidates.map_values(
        |c: Option<&str>|
            match c {
                Some(s) => Some(s@),
                None => None,
            },
    )
}

/// A trimmed, non-empty identifier of at most 256 bytes without control
/// characters.
pub open spec fn spec_normalized_session_id(value: Option<Seq<char>>) -> Option<Seq<char>> {
    match value {
        None => None,
        Some(s) => {
            let t = trim_chars(s);
            if t.len() > 0 && encode_utf8(t).len() <= 256 && !(exists|i: int|
                0 <= i < t.len() && is_control_char(#[trigger] t[i])) {
                Some(t)
            } else {
                None
            }
        },
    }
}

/// The characters of an optional string.
pub open spec fn string_opt_view(value: Option<String>) -> Option<Seq<char>> {
    match value {
        Some(v) => Some(v@),
        None => None,
    }
}

/// Reads the minor version of a Codex CLI version string.
pub fn cli_minor_version(version: &str) -> (r: Option<u16>)
    ensures
        r == cli_minor(version.spec_bytes()),
{
    let b = version.as_bytes();
    let i = find_byte_from(b, 0, 46);
    if i >= b.len() {
        return None;
    }
    let j = find_byte_from(b, i + 1, 46);
    parse_u16(b, i + 1, j)
}

/// Accepts only the reviewed `0.130` through `0.151` Codex CLI releases.
pub fn is_supported_cli_version(version: &str) -> (r: bool)
    ensures
        r == spec_is_supported_cli_version(version.spec_bytes()),
{
    let b = version.as_bytes();
    let i = find_byte_from(b, 0, 46);
    if i != 1 || b[0] != 48 {
        return false;
    }
    let minor = match cli_minor_version(version) {
        Some(m) => m,
        None => return false,
    };
    if minor < MIN_SUPPORTED_CODEX_CLI_MINOR || minor > MAX_SUPPORTED_CODEX_CLI_MINOR {
        return false;
    }
    let j = find_byte_from(b, 2, 46);
    if j >= b.len() || j + 1 >= b.len() {
        assert(version_remainder(b@).len() == 0);
        return false;
    }
    let ghost rest = version_remainder(b@);
    assert(rest =~= b@.subrange(j + 1, b@.len() as int));
    let mut k = j + 1;
    while k < b.len()
        invariant
            j + 1 <= k <= b@.len(),
            rest == b@.subrange(j + 1, b@.len() as int),
            rest == version_remainder(version.spec_bytes()),
            b@ == version.spec_bytes(),
            forall|m: int| j + 1 <= m < k ==> is_version_tail_byte(#[trigger] b@[m]),
        decreases b@.len() - k,
    {
        let c = b[k];
        let ok = (48 <= c && c <= 57) || (65 <= c && c <= 90) || (97 <= c && c <= 122) || c == 46
            || c == 45 || c == 43;
        if !ok {
            assert(!is_version_tail_byte(rest[k - (j + 1)]));
            return false;
        }
        k = k + 1;
    }
    assert forall|m: int| 0 <= m < rest.len() implies is_version_tail_byte(#[trigger] rest[m]) by {
        assert(rest[m] == b@[j + 1 + m]);
    }
    true
}

/// Accepts a model name only when it is short and made of plain ASCII.
pub fn valid_model_name(model: &str) -> (r: bool)
    ensures
        r == spec_valid_model_name(model@),
{
    let b = model.as_bytes();
    if b.len() == 0 || b.len() > 64 {
        return false;
    }
    let mut k: usize = 0;
    while k < b.len()
        invariant
            k <= b@.len(),
            b@ == encode_utf8(model@),
            forall|m: int| 0 <= m < k ==> is_model_name_byte(#[trigger] b@[m]),
        decreases b@.len() - k,
    {
        let c = b[k];
        let ok = (48 <= c && c <= 57) || (65 <= c && c <= 90) || (97 <= c && c <= 122) || c == 46
            || c == 45 || c == 95 || c == 47;
        if !ok {
            return false;
        }
        k = k + 1;
    }
    true
}

/// The first candidate that is, once trimmed, a valid model name.
pub fn first_valid_model(candidates: &[Option<&str>]) -> (r: Option<String>)
    ensures
        r matches Some(m) ==> spec_first_valid_model(candidate_chars(candidates@)) == Some(m@),
        r is None ==> spec_first_valid_model(candidate_chars(candidates@)) is None,
{
    let ghost all = candidate_chars(candidates@);
    let mut i: usize = 0;
    assert(all.skip(0) =~= all);
    while i < candidates.len()
        invariant
            all == candidate_chars(candidates@),
            i <= candidates@.len(),
            spec_first_valid_model(all) == spec_first_valid_model(all.skip(i as int)),
        decreases candidates@.len() - i,
    {
        assert(all.skip(i as int).drop_first() =~= all.skip(i + 1));
        match candidates[i] {
            Some(candidate) => {
                let trimmed = trim_str(candidate);
                if valid_model_name(trimmed) {
                    return Some(trimmed.to_owned());
                }
            },
            None => {},
        }
        i = i + 1;
    }
    None
}

/// A trimmed identifier, or `None` when it is empty, longer than 256
/// bytes, or holds a control character.
pub fn normalized_session_id(value: Option<String>) -> (r: Option<String>)
    ensures
        r matches Some(s) ==> spec_normalized_session_id(string_opt_view(value)) == Some(s@),
        r is None ==> spec_normalized_session_id(string_opt_view(value)) is None,
{
    match value {
        None => None,
        Some(v) => {
            let t = trim_str(v.as_str());
            if t.is_empty() || t.as_bytes().len() > 256 || has_control_char(t) {
                None
            } else {
                Some(t.to_owned())
            }
        },
    }
}

/// Whether `hay[..limit]` holds `pattern` somewhere.
pub open spec fn contains_window(hay: Seq<u8>, pattern: Seq<u8>) -> bool {
    exists|i: int|
        0 <= i && i + pattern.len() <= hay.len() && #[trigger] hay.subrange(i, i + pattern.len())
            == pattern
}

fn contains_subslice(hay: &[u8], limit: usize, pattern: &[u8]) -> (r: bool)
    requires
        limit <= hay@.len(),
    ensures
        r == contains_window(hay@.take(limit as int), pattern@),
{
    let ghost h = hay@.take(limit as int);
    if pattern.len() > limit {
        return false;
    }
    let mut i: usize = 0;
    while i <= limit - pattern.len()
        invariant
            limit <= hay@.len(),
            pattern@.len() <= limit,
            h == hay@.take(limit as int),
            i <= limit - pattern@.len() + 1,
            forall|k: int| 0 <= k < i ==> #[trigger] h.subrange(k, k + pattern@.len()) != pattern@,
        decreases limit - i,
    {
        let mut j: usize = 0;
        let mut same = true;
        while j < pattern.len()
            invariant
                i + pattern@.len() <= limit <= hay@.len(),
                h == hay@.take(limit as int),
                j <= pattern@.len(),
                same == forall|m: int| 0 <= m < j ==> hay@[i + m] == pattern@[m],
            decreases pattern@.len() - j,
        {
            if hay[i + j] != pattern[j] {
                same = false;
            }
            j = j + 1;
        }
        if same {
            assert(h.subrange(i as int, i + pattern@.len()) =~= pattern@);
            return true;
        }
        assert(h.subrange(i as int, i + pattern@.len()) != pattern@) by {
            let m = choose|m: int| 0 <= m < pattern@.len() && hay@[i + m] != pattern@[m];
            assert(h.subrange(i as int, i + pattern@.len())[m] == hay@[i + m]);
        }
        i = i + 1;
    }
    assert forall|k: int|
        0 <= k && k + pattern@.len() <= h.len() implies #[trigger] h.subrange(
        k,
        k + pattern@.len(),
    ) != pattern@ by {}
    false
}

/// Record kinds that an over-long line may carry without losing usage.
pub open spec fn spec_oversized_record_is_ignorable(prefix: Seq<u8>) -> bool {
    let p = prefix.take(if prefix.len() < 4096 {
        prefix.len() as int
    } else {
        4096
    });
    ||| contains_window(p, encode_utf8("\"type\":\"compacted\""@))
    ||| contains_window(p, encode_utf8("\"type\":\"response_item\""@))
    ||| contains_window(p, encode_utf8("\"payload\":{\"type\":\"user_message\""@))
}

/// Whether the first 4 KiB of an over-long record show a record kind that
/// never carries token usage.
pub fn oversized_record_is_ignorable(prefix: &[u8]) -> (r: bool)
    ensures
        r == spec_oversized_record_is_ignorable(prefix@),
{
    let limit = if prefix.len() < 4096 {
        prefix.len()
    } else {
        4096
    };
    contains_subslice(prefix, limit, "\"type\":\"compacted\"".as_bytes()) || contains_subslice(
        prefix,
        limit,
        "\"type\":\"response_item\"".as_bytes(),
    ) || contains_subslice(prefix, limit, "\"payload\":{\"type\":\"user_message\"".as_bytes())
}

} // verus!
