//! UTC ranking days and rollout timestamps.
//!
//! A day is its Julian day number. Timestamps are read as RFC 3339 by the
//! `time` crate and carried as Unix nanoseconds.
use vstd::prelude::*;
use vstd::string::StringSliceAdditionalSpecFns;

use crate::text::{parse_u16, spec_parse_u16};

verus! {

broadcast use vstd::string::group_string_axioms;

/// Julian day number of 1970-01-01.
pub const UNIX_EPOCH_JULIAN_DAY: i32 = 2440588;

/// Julian day number of -9999-01-01, the first date `time` represents.
pub const MIN_JULIAN_DAY: i32 = -1930999;

/// Julian day number of 9999-12-31, the last date `time` represents.
pub const MAX_JULIAN_DAY: i32 = 5373484;

pub const NANOS_PER_DAY: i128 = 86_400_000_000_000;

/// A bound on the Unix nanoseconds of any instant `time` represents: its
/// dates span the years -9999..=9999 and its offsets stay under 26 hours.
pub const MAX_ABS_UNIX_NANOS: i128 = 400_000_000_000_000_000_000;

pub open spec fn is_leap_year(year: int) -> bool {
    (year % 4 == 0 && year % 100 != 0) || year % 400 == 0
}

pub open spec fn days_in_month(year: int, month: int) -> int {
    if month == 2 {
        if is_leap_year(year) {
            29
        } else {
            28
        }
    } else if month == 4 || month == 6 || month == 9 || month == 11 {
        30
    } else {
        31
    }
}

/// A proleptic Gregorian date within the years `time` represents.
pub open spec fn valid_calendar_date(year: int, month: int, day: int) -> bool {
    &&& -9999 <= year <= 9999
    &&& 1 <= month <= 12
    &&& 1 <= day <= days_in_month(year, month)
}

/// Days of the year before the first of `month`.
pub open spec fn days_before_month(year: int, month: int) -> int {
    let leap: int = if is_leap_year(year) {
        1
    } else {
        0
    };
    if month <= 1 {
        0
    } else if month == 2 {
        31
    } else {
        (if month == 3 {
            59int
        } else if month == 4 {
            90
        } else if month == 5 {
            120
        } else if month == 6 {
            151
        } else if month == 7 {
            181
        } else if month == 8 {
            212
        } else if month == 9 {
            243
        } else if month == 10 {
            273
        } else if month == 11 {
            304
        } else {
            334
        }) + leap
    }
}

/// The Julian day number of a calendar date, as `Date::to_julian_day`
/// computes it from the year and the day of the year: the year is shifted
/// to be non-negative, and the days before it are counted with the
/// Gregorian leap rules.
pub open spec fn julian_day_of(year: int, month: int, day: int) -> int {
    let ordinal = days_before_month(year, month) + day;
    let adjusted = year + 999_999;
    let century = adjusted / 100;
    (1461 * adjusted) / 4 - century + century / 4 + ordinal - 363_521_075
}

/// The instant an RFC 3339 timestamp denotes, in Unix nanoseconds (as
/// `OffsetDateTime::parse(.., &Rfc3339)` then `unix_timestamp_nanos`).
pub uninterp spec fn rfc3339_unix_nanos(s: Seq<char>) -> Option<int>;

/// `Date::from_calendar_date` followed by `Date::to_julian_day`: a day
/// exists exactly for the valid proleptic Gregorian dates of years
/// -9999..=9999, and every such day lies between `Date::MIN` and `Date::MAX`.
#[verifier::external_body]
fn calendar_julian_day(year: i32, month: u8, day: u8) -> (r: Option<i32>)
    ensures
        r is Some <==> valid_calendar_date(year as int, month as int, day as int),
        r matches Some(j) ==> j == julian_day_of(year as int, month as int, day as int),
        r matches Some(j) ==> MIN_JULIAN_DAY <= j <= MAX_JULIAN_DAY,
{
    let month = time::Month::try_from(month).ok()?;
    time::Date::from_calendar_date(year, month, day).ok().map(|date| date.to_julian_day())
}

/// `OffsetDateTime::parse(s, &Rfc3339)` followed by `unix_timestamp_nanos`;
/// the instant lies within the range of years `time` represents.
#[verifier::external_body]
fn parse_rfc3339_unix_nanos(s: &str) -> (r: Option<i128>)
    ensures
        r matches Some(n) ==> rfc3339_unix_nanos(s@) == Some(n as int),
        r matches Some(n) ==> -MAX_ABS_UNIX_NANOS <= n <= MAX_ABS_UNIX_NANOS,
        r is None ==> rfc3339_unix_nanos(s@) is None,
{
    time::OffsetDateTime::parse(s, &time::format_description::well_known::Rfc3339).ok().map(
        |t| t.unix_timestamp_nanos(),
    )
}

/// The UTC day (Julian day number) that contains an instant.
pub open spec fn utc_day_of_nanos(nanos: int) -> int {
    nanos / (NANOS_PER_DAY as int) + UNIX_EPOCH_JULIAN_DAY as int
}

/// A `YYYY-MM-DD` ranking day, parsed field by field as `u16` and checked
/// as a calendar date.
pub open spec fn spec_parse_ranking_day(b: Seq<u8>) -> Result<int, ()> {
    if b.len() != 10 || b[4] != 45 || b[7] != 45 {
        Err(())
    } else {
        match (
            spec_parse_u16(b.subrange(0, 4)),
            spec_parse_u16(b.subrange(5, 7)),
            spec_parse_u16(b.subrange(8, 10)),
        ) {
            (Some(y), Some(m), Some(d)) => if m <= 255 && d <= 255 && valid_calendar_date(
                y as int,
                m as int,
                d as int,
            ) {
                Ok(julian_day_of(y as int, m as int, d as int))
            } else {
                Err(())
            },
            _ => Err(()),
        }
    }
}

/// Parses a `YYYY-MM-DD` ranking day into its Julian day number.
pub fn parse_ranking_day(value: &str) -> (r: Result<i32, ()>)
    ensures
        r matches Ok(j) ==> spec_parse_ranking_day(value.spec_bytes()) == Ok::<int, ()>(j as int),
        r is Err ==> spec_parse_ranking_day(value.spec_bytes()) is Err,
        r matches Ok(j) ==> MIN_JULIAN_DAY <= j <= MAX_JULIAN_DAY,
{
    let b = value.as_bytes();
    assert(b@.skip(0) =~= b@);
    parse_ranking_day_bytes(b, 0)
}

/// Parses the `YYYY-MM-DD` ranking day that fills `b` from `start` on.
pub fn parse_ranking_day_bytes(b: &[u8], start: usize) -> (r: Result<i32, ()>)
    requires
        start <= b@.len(),
    ensures
        r matches Ok(j) ==> spec_parse_ranking_day(b@.skip(start as int)) == Ok::<int, ()>(
            j as int,
        ),
        r is Err ==> spec_parse_ranking_day(b@.skip(start as int)) is Err,
        r matches Ok(j) ==> MIN_JULIAN_DAY <= j <= MAX_JULIAN_DAY,
{
    let ghost t = b@.skip(start as int);
    if b.len() - start != 10 || b[start + 4] != 45 || b[start + 7] != 45 {
        return Err(());
    }
    assert(t.subrange(0, 4) =~= b@.subrange(start as int, start + 4));
    assert(t.subrange(5, 7) =~= b@.subrange(start + 5, start + 7));
    assert(t.subrange(8, 10) =~= b@.subrange(start + 8, start + 10));
    let year = match parse_u16(b, start, start + 4) {
        Some(v) => v,
        None => return Err(()),
    };
    let month = match parse_u16(b, start + 5, start + 7) {
        Some(v) => v,
        None => return Err(()),
    };
    let day = match parse_u16(b, start + 8, start + 10) {
        Some(v) => v,
        None => return Err(()),
    };
    if month > 255 || day > 255 {
        return Err(());
    }
    match calendar_julian_day(year as i32, month as u8, day as u8) {
        Some(j) => Ok(j),
        None => Err(()),
    }
}

/// The UTC day containing a Unix instant.
pub fn utc_ranking_day(unix_nanos: i128) -> (r: i32)
    requires
        -MAX_ABS_UNIX_NANOS <= unix_nanos <= MAX_ABS_UNIX_NANOS,
    ensures
        r as int == utc_day_of_nanos(unix_nanos as int),
        -8_000_000 <= r <= 13_000_000,
{
    let q = if unix_nanos >= 0 {
        unix_nanos / NANOS_PER_DAY
    } else {
        -((-(unix_nanos + 1)) / NANOS_PER_DAY) - 1
    };
    assert(q as int == unix_nanos as int / (NANOS_PER_DAY as int)) by (nonlinear_arith)
        requires
            unix_nanos >= 0 ==> q as int == unix_nanos as int / (NANOS_PER_DAY as int),
            unix_nanos < 0 ==> q as int == -((-(unix_nanos as int + 1)) / (NANOS_PER_DAY as int))
                - 1,
            NANOS_PER_DAY == 86_400_000_000_000,
            -MAX_ABS_UNIX_NANOS <= unix_nanos <= MAX_ABS_UNIX_NANOS,
    {
        if unix_nanos < 0 {
            let n = unix_nanos as int;
            let d = NANOS_PER_DAY as int;
            let k = (-(n + 1)) / d;
            assert(k * d <= -(n + 1) < (k + 1) * d);
            assert((-k - 1) * d <= n < (-k) * d);
        }
    }
    assert(-10_000_000 <= q <= 10_000_000) by (nonlinear_arith)
        requires
            q as int == unix_nanos as int / 86_400_000_000_000int,
            -400_000_000_000_000_000_000int <= unix_nanos <= 400_000_000_000_000_000_000int,
    ;
    (q + UNIX_EPOCH_JULIAN_DAY as i128) as i32
}

/// A parsed rollout timestamp.
#[derive(Clone, Copy, Debug, PartialEq, Eq, Structural)]
pub struct Timestamp {
    /// Unix nanoseconds.
    pub unix_nanos: i128,
    /// The UTC day (Julian day number) that contains it.
    pub day: i32,
}

/// Reads an RFC 3339 rollout timestamp.
pub fn parse_rollout_timestamp(value: &str) -> (r: Result<Timestamp, ()>)
    ensures
        r matches Ok(t) ==> rfc3339_unix_nanos(value@) == Some(t.unix_nanos as int) && t.day
            == utc_day_of_nanos(t.unix_nanos as int),
        r matches Ok(t) ==> -MAX_ABS_UNIX_NANOS <= t.unix_nanos <= MAX_ABS_UNIX_NANOS,
        r is Err ==> rfc3339_unix_nanos(value@) is None,
{
    match parse_rfc3339_unix_nanos(value) {
        Some(n) => Ok(Timestamp { unix_nanos: n, day: utc_ranking_day(n) }),
        None => Err(()),
    }
}

/// The Unix nanoseconds of an RFC 3339 timestamp, when they fit in `i64`.
pub open spec fn spec_timestamp_ns(s: Seq<char>) -> Result<i64, ()> {
    match rfc3339_unix_nanos(s) {
        Some(n) if i64::MIN <= n <= i64::MAX => Ok(n as i64),
        _ => Err(()),
    }
}

/// The Unix nanoseconds of an RFC 3339 timestamp, when they fit in `i64`.
pub fn timestamp_ns(value: &str) -> (r: Result<i64, ()>)
    ensures
        r == spec_timestamp_ns(value@),
{
    match parse_rfc3339_unix_nanos(value) {
        Some(n) => if n >= i64::MIN as i128 && n <= i64::MAX as i128 {
            Ok(n as i64)
        } else {
            Err(())
        },
        None => Err(()),
    }
}

/// Ranking days are UTC days: 1970-01-01 is the day of the Unix epoch,
/// and the day a timestamp ranks under is the calendar day whose UTC
/// midnight-to-midnight span contains the instant, whatever offset the
/// timestamp was written with.
pub proof fn law_ranking_days_are_utc(year: int, month: int, day: int, unix_nanos: int)
    ensures
        julian_day_of(1970, 1, 1) == UNIX_EPOCH_JULIAN_DAY,
        ({
            let midnight = (julian_day_of(year, month, day) - UNIX_EPOCH_JULIAN_DAY) * (
            NANOS_PER_DAY as int);
            midnight <= unix_nanos < midnight + NANOS_PER_DAY ==> utc_day_of_nanos(unix_nanos)
                == julian_day_of(year, month, day)
        }),
{
    assert(julian_day_of(1970, 1, 1) == 2440588);
    let k = julian_day_of(year, month, day) - UNIX_EPOCH_JULIAN_DAY;
    vstd::arithmetic::div_mod::lemma_fundamental_div_mod(unix_nanos, 86_400_000_000_000);
    vstd::arithmetic::div_mod::lemma_mod_bound(unix_nanos, 86_400_000_000_000);
}

} // verus!
