//! Values as the usage index stores them: integer columns and the names of
//! the backups kept before a schema migration.
use vstd::prelude::*;
use vstd::utf8::{encode_utf8, is_ascii_chars, is_ascii_chars_encode_utf8};

use crate::text::{all_digits, digits_value, is_digit, spec_parse_i64};

verus! {

/// A stored integer column: counters are kept as SQLite's signed integers.
pub fn to_i64(value: u64) -> (r: Result<i64, ()>)
    ensures
        r is Ok <==> value <= i64::MAX,
        r matches Ok(v) ==> v == value,
{
    if value <= i64::MAX as u64 {
        Ok(value as i64)
    } else {
        Err(())
    }
}

/// A stored integer column read back as a counter.
pub fn from_i64(value: i64) -> (r: Result<u64, ()>)
    ensures
        r is Ok <==> value >= 0,
        r matches Ok(v) ==> v == value,
{
    if value >= 0 {
        Ok(value as u64)
    } else {
        Err(())
    }
}

pub open spec fn digit_char(d: nat) -> char {
    if d == 0 {
        '0'
    } else if d == 1 {
        '1'
    } else if d == 2 {
        '2'
    } else if d == 3 {
        '3'
    } else if d == 4 {
        '4'
    } else if d == 5 {
        '5'
    } else if d == 6 {
        '6'
    } else if d == 7 {
        '7'
    } else if d == 8 {
        '8'
    } else {
        '9'
    }
}

/// The decimal digits of a natural number, most significant first.
pub open spec fn decimal_digits(n: nat) -> Seq<char>
    decreases n,
{
    if n < 10 {
        seq![digit_char(n)]
    } else {
        decimal_digits(n / 10).push(digit_char(n % 10))
    }
}

/// An integer as `Display` writes it: a minus sign for negative values,
/// then the decimal digits of its magnitude.
pub open spec fn decimal_text(v: int) -> Seq<char> {
    if v < 0 {
        seq!['-'] + decimal_digits((-v) as nat)
    } else {
        decimal_digits(v as nat)
    }
}

fn digit_str(d: u64) -> (r: &'static str)
    requires
        d < 10,
    ensures
        r@ == seq![digit_char(d as nat)],
{
    let r = if d == 0 {
        "0"
    } else if d == 1 {
        "1"
    } else if d == 2 {
        "2"
    } else if d == 3 {
        "3"
    } else if d == 4 {
        "4"
    } else if d == 5 {
        "5"
    } else if d == 6 {
        "6"
    } else if d == 7 {
        "7"
    } else if d == 8 {
        "8"
    } else {
        "9"
    };
    proof {
        reveal_strlit("0");
        reveal_strlit("1");
        reveal_strlit("2");
        reveal_strlit("3");
        reveal_strlit("4");
        reveal_strlit("5");
        reveal_strlit("6");
        reveal_strlit("7");
        reveal_strlit("8");
        reveal_strlit("9");
    }
    r
}

fn append_decimal(out: &mut String, n: u64)
    ensures
        final(out)@ == old(out)@ + decimal_digits(n as nat),
    decreases n,
{
    if n >= 10 {
        append_decimal(out, n / 10);
    }
    let ghost before = out@;
    out.append(digit_str(n % 10));
    proof {
        if n >= 10 {
            assert(out@ =~= old(out)@ + decimal_digits(n as nat));
        } else {
            assert(out@ =~= old(out)@ + decimal_digits(n as nat));
        }
    }
}

/// An integer in decimal, as `Display` writes it.
pub fn decimal_string(v: i64) -> (r: String)
    ensures
        r@ == decimal_text(v as int),
{
    let mut out = String::new();
    if v < 0 {
        out.append("-");
        proof {
            reveal_strlit("-");
        }
        let magnitude = (-(v as i128)) as u64;
        append_decimal(&mut out, magnitude);
        assert(out@ =~= decimal_text(v as int));
    } else {
        append_decimal(&mut out, v as u64);
        assert(out@ =~= decimal_text(v as int));
    }
    out
}

/// A counter in decimal.
pub fn decimal_string_u64(v: u64) -> (r: String)
    ensures
        r@ == decimal_text(v as int),
{
    let mut out = String::new();
    append_decimal(&mut out, v);
    assert(out@ =~= decimal_text(v as int));
    out
}

/// The extension of the backup of an index at schema `source_version`.
pub open spec fn backup_extension(source_version: i64) -> Seq<char> {
    "sqlite3.codex-usage-v"@ + decimal_text(source_version as int) + ".backup"@
}

/// The extension of a backup still being written.
pub open spec fn partial_backup_extension(source_version: i64) -> Seq<char> {
    backup_extension(source_version) + ".partial"@
}

/// The extension of the backup of an index at schema `source_version`.
pub fn usage_index_backup_extension(source_version: i64) -> (r: String)
    ensures
        r@ == backup_extension(source_version),
{
    let mut out = String::from_str("sqlite3.codex-usage-v");
    let digits = decimal_string(source_version);
    out.append(digits.as_str());
    out.append(".backup");
    out
}

/// The path `Path::with_extension` gives: `path` with the extension of its
/// file name replaced by `extension`.
pub uninterp spec fn path_with_extension_of(path: Seq<char>, extension: Seq<char>) -> Seq<char>;

/// No character of `s` separates path components (`/` anywhere, a backslash on
/// Windows).
pub open spec fn has_no_separator(s: Seq<char>) -> bool {
    forall|i: int| 0 <= i < s.len() ==> #[trigger] s[i] != '/' && s[i] != '\\'
}

proof fn lemma_decimal_digits_have_no_separator(n: nat)
    ensures
        has_no_separator(decimal_digits(n)),
    decreases n,
{
    if n >= 10 {
        lemma_decimal_digits_have_no_separator(n / 10);
        let prev = decimal_digits(n / 10);
        assert forall|i: int| 0 <= i < decimal_digits(n).len() implies #[trigger] decimal_digits(n)[i]
            != '/' && decimal_digits(n)[i] != '\\' by {
            if i < prev.len() {
                assert(decimal_digits(n)[i] == prev[i]);
            }
        }
    }
}

proof fn lemma_backup_extensions_have_no_separator(source_version: i64)
    ensures
        has_no_separator(backup_extension(source_version)),
        has_no_separator(partial_backup_extension(source_version)),
{
    reveal_strlit("sqlite3.codex-usage-v");
    reveal_strlit(".backup");
    reveal_strlit(".partial");
    let v = source_version as int;
    let digits = if v < 0 { decimal_digits((-v) as nat) } else { decimal_digits(v as nat) };
    lemma_decimal_digits_have_no_separator(if v < 0 { (-v) as nat } else { v as nat });
    let t = decimal_text(v);
    assert(has_no_separator(t)) by {
        if v < 0 {
            assert forall|i: int| 0 <= i < t.len() implies #[trigger] t[i] != '/' && t[i] != '\\' by {
                if i > 0 {
                    assert(t[i] == digits[i - 1]);
                }
            }
        }
    }
    let a = "sqlite3.codex-usage-v"@;
    let b = ".backup"@;
    let e = a + t + b;
    assert forall|i: int| 0 <= i < e.len() implies #[trigger] e[i] != '/' && e[i] != '\\' by {
        if i < a.len() {
            assert(e[i] == a[i]);
        } else if i < a.len() + t.len() {
            assert(e[i] == t[i - a.len()]);
        } else {
            assert(e[i] == b[i - a.len() - t.len()]);
        }
    }
    let c = ".partial"@;
    let f = e + c;
    assert forall|i: int| 0 <= i < f.len() implies #[trigger] f[i] != '/' && f[i] != '\\' by {
        if i < e.len() {
            assert(f[i] == e[i]);
        } else {
            assert(f[i] == c[i - e.len()]);
        }
    }
}

/// `Path::new(path).with_extension(extension)`, as text. The path is a
/// function of the two arguments alone. `with_extension` panics on an
/// extension that holds a path separator, so none is passed.
#[verifier::external_body]
fn path_with_extension(path: &str, extension: &str) -> (r: String)
    requires
        has_no_separator(extension@),
    ensures
        r@ == path_with_extension_of(path@, extension@),
{
    std::path::Path::new(path).with_extension(extension).to_string_lossy().into_owned()
}

/// Where the index at `path` is backed up before migrating from schema
/// `source_version`.
pub fn usage_index_backup_path(path: &str, source_version: i64) -> (r: String)
    ensures
        r@ == path_with_extension_of(path@, backup_extension(source_version)),
{
    let extension = usage_index_backup_extension(source_version);
    proof {
        lemma_backup_extensions_have_no_separator(source_version);
    }
    path_with_extension(path, extension.as_str())
}

/// Where the backup is written before it is complete.
pub fn usage_index_backup_partial_path(path: &str, source_version: i64) -> (r: String)
    ensures
        r@ == path_with_extension_of(path@, partial_backup_extension(source_version)),
{
    let mut extension = usage_index_backup_extension(source_version);
    extension.append(".partial");
    proof {
        reveal_strlit(".partial");
        lemma_backup_extensions_have_no_separator(source_version);
    }
    assert(extension@ == partial_backup_extension(source_version));
    path_with_extension(path, extension.as_str())
}

/// The bytes of an ASCII text.
pub open spec fn ascii_bytes(cs: Seq<char>) -> Seq<u8> {
    Seq::new(cs.len(), |i: int| cs[i] as u8)
}

proof fn lemma_decimal_digits_read_back(n: nat)
    ensures
        decimal_digits(n).len() > 0,
        is_ascii_chars(decimal_digits(n)),
        all_digits(ascii_bytes(decimal_digits(n))),
        digits_value(ascii_bytes(decimal_digits(n))) == n,
    decreases n,
{
    let ds = decimal_digits(n);
    let c = digit_char(n % 10);
    assert(c as u8 == 48 + n % 10);
    if n < 10 {
        assert(ascii_bytes(ds).drop_last() =~= Seq::<u8>::empty());
        assert(ascii_bytes(ds).last() == c as u8);
        assert(digits_value(ascii_bytes(ds)) == digits_value(ascii_bytes(ds).drop_last()) * 10 + (
        ascii_bytes(ds).last() - 48) as nat);
    } else {
        lemma_decimal_digits_read_back(n / 10);
        let prev = decimal_digits(n / 10);
        assert(ds == prev.push(c));
        assert(ascii_bytes(ds) =~= ascii_bytes(prev).push(c as u8));
        assert(ascii_bytes(ds).drop_last() =~= ascii_bytes(prev));
        assert(ascii_bytes(ds).last() == c as u8);
        assert(digits_value(ascii_bytes(ds)) == digits_value(ascii_bytes(ds).drop_last()) * 10 + (
        ascii_bytes(ds).last() - 48) as nat);
        assert(n == (n / 10) * 10 + n % 10);
        assert forall|i: int| 0 <= i < ds.len() implies '\0' <= #[trigger] ds[i] <= '\u{7f}' by {
            if i < prev.len() {
                assert(ds[i] == prev[i]);
            }
        }
        assert forall|i: int| 0 <= i < ascii_bytes(ds).len() implies is_digit(
            #[trigger] ascii_bytes(ds)[i],
        ) by {
            if i < prev.len() {
                assert(ascii_bytes(ds)[i] == ascii_bytes(prev)[i]);
            }
        }
    }
}

/// An integer written in decimal reads back as itself: `i64::from_str`
/// undoes what `Display` writes, so a stored cursor resumes where it was
/// left.
pub proof fn law_decimal_text_reads_back(v: i64)
    ensures
        spec_parse_i64(encode_utf8(decimal_text(v as int))) == Some(v),
{
    let t = decimal_text(v as int);
    if v < 0 {
        let m = (-v) as nat;
        lemma_decimal_digits_read_back(m);
        let ds = decimal_digits(m);
        assert(t == seq!['-'] + ds);
        assert forall|i: int| 0 <= i < t.len() implies '\0' <= #[trigger] t[i] <= '\u{7f}' by {
            if i > 0 {
                assert(t[i] == ds[i - 1]);
            }
        }
        is_ascii_chars_encode_utf8(t);
        assert(encode_utf8(t) =~= ascii_bytes(t));
        assert(ascii_bytes(t).drop_first() =~= ascii_bytes(ds));
        assert(ascii_bytes(t)[0] == 45);
    } else {
        let m = v as nat;
        lemma_decimal_digits_read_back(m);
        is_ascii_chars_encode_utf8(t);
        assert(encode_utf8(t) =~= ascii_bytes(t));
        assert(is_digit(ascii_bytes(t)[0]));
    }
}

} // verus!
