//! How complete the local usage evidence of a period is.
use vstd::prelude::*;

use crate::clock::{NANOS_PER_DAY, UNIX_EPOCH_JULIAN_DAY};
use crate::text::str_eq;

verus! {

/// Whether the usage of a period is known yet.
#[derive(Clone, Copy, Debug, PartialEq, Eq, Structural)]
pub enum UsageScanStatus {
    Indexing,
    Unavailable,
    Complete,
}

/// How a cost figure was obtained.
#[derive(Clone, Copy, Debug, PartialEq, Eq, Structural)]
pub enum ApiEquivalentCostQuality {
    Reconciled,
    Modeled,
    LocalOnly,
}

pub open spec fn cost_quality_label(quality: Option<ApiEquivalentCostQuality>) -> Seq<char> {
    match quality {
        Some(ApiEquivalentCostQuality::Reconciled) => "reconciled"@,
        Some(ApiEquivalentCostQuality::Modeled) => "modeled"@,
        Some(ApiEquivalentCostQuality::LocalOnly) => "local-only"@,
        None => "unavailable"@,
    }
}

/// The label of a cost quality in the debug report.
pub fn debug_cost_quality(quality: Option<ApiEquivalentCostQuality>) -> (r: &'static str)
    ensures
        r@ == cost_quality_label(quality),
{
    match quality {
        Some(ApiEquivalentCostQuality::Reconciled) => "reconciled",
        Some(ApiEquivalentCostQuality::Modeled) => "modeled",
        Some(ApiEquivalentCostQuality::LocalOnly) => "local-only",
        None => "unavailable",
    }
}

/// The status of a period that starts at `period_start` (Unix nanoseconds):
/// while a file modified since the period started is still pending, the
/// period is indexing; if one ended incomplete, the period is unavailable;
/// otherwise it is complete. Without a known scan scope the scan's own
/// status stands.
pub open spec fn spec_period_scan_status(
    scan_status: UsageScanStatus,
    latest_pending_modified_at: Option<i128>,
    latest_incomplete_modified_at: Option<i128>,
    period_start: i128,
    scan_scope_known: bool,
) -> UsageScanStatus {
    if !scan_scope_known {
        scan_status
    } else if latest_pending_modified_at matches Some(m) && m >= period_start {
        UsageScanStatus::Indexing
    } else if latest_incomplete_modified_at matches Some(m) && m >= period_start {
        UsageScanStatus::Unavailable
    } else {
        UsageScanStatus::Complete
    }
}

/// How complete a period is, by what is known of its files: without a
/// known scan scope the scan's own status stands; with one, a file modified
/// since the period began that is still pending keeps the period indexing,
/// whatever else is known; failing that, a file of the period that ended
/// incomplete makes it unavailable; otherwise it is complete. Files last
/// modified before the period began do not count.
pub proof fn law_period_status_puts_pending_work_first(
    scan_status: UsageScanStatus,
    latest_pending_modified_at: Option<i128>,
    latest_incomplete_modified_at: Option<i128>,
    period_start: i128,
    scan_scope_known: bool,
)
    ensures
        ({
            let r = spec_period_scan_status(
                scan_status,
                latest_pending_modified_at,
                latest_incomplete_modified_at,
                period_start,
                scan_scope_known,
            );
            let pending = latest_pending_modified_at is Some
                && latest_pending_modified_at.unwrap() >= period_start;
            let incomplete = latest_incomplete_modified_at is Some
                && latest_incomplete_modified_at.unwrap() >= period_start;
            &&& !scan_scope_known ==> r == scan_status
            &&& scan_scope_known && pending ==> r == UsageScanStatus::Indexing
            &&& scan_scope_known && !pending && incomplete ==> r == UsageScanStatus::Unavailable
            &&& scan_scope_known && !pending && !incomplete ==> r == UsageScanStatus::Complete
        }),
{
}

pub fn period_scan_status(
    scan_status: UsageScanStatus,
    latest_pending_modified_at: Option<i128>,
    latest_incomplete_modified_at: Option<i128>,
    period_start: i128,
    scan_scope_known: bool,
) -> (r: UsageScanStatus)
    ensures
        r == spec_period_scan_status(
            scan_status,
            latest_pending_modified_at,
            latest_incomplete_modified_at,
            period_start,
            scan_scope_known,
        ),
{
    if !scan_scope_known {
        return scan_status;
    }
    if let Some(m) = latest_pending_modified_at {
        if m >= period_start {
            return UsageScanStatus::Indexing;
        }
    }
    if let Some(m) = latest_incomplete_modified_at {
        if m >= period_start {
            return UsageScanStatus::Unavailable;
        }
    }
    UsageScanStatus::Complete
}

/// Unix nanoseconds of UTC midnight starting a Julian day.
pub open spec fn day_start_nanos(day: int) -> int {
    (day - UNIX_EPOCH_JULIAN_DAY) * NANOS_PER_DAY
}

/// The first instant of the `length`-day period that ends on `today`.
pub fn period_start_nanos(today: i32, length: i32) -> (r: i128)
    requires
        1 <= length,
    ensures
        r == day_start_nanos(today - (length - 1)),
{
    let first_day = today as i128 - (length as i128 - 1);
    let days = first_day - UNIX_EPOCH_JULIAN_DAY as i128;
    assert(-5_000_000_000 <= days <= 5_000_000_000);
    assert(-5_000_000_000 * NANOS_PER_DAY <= days * NANOS_PER_DAY <= 5_000_000_000
        * NANOS_PER_DAY) by (nonlinear_arith)
        requires
            -5_000_000_000 <= days <= 5_000_000_000,
            NANOS_PER_DAY > 0,
    ;
    days * NANOS_PER_DAY
}

/// The pricing basis a day's costs share: one basis when every priced row
/// of the day names a basis and all name the same one, else none.
pub open spec fn shared_pricing_basis(bases: Seq<Option<Seq<char>>>) -> Option<Seq<char>> {
    if bases.len() > 0 && bases[0] is Some && forall|i: int|
        0 <= i < bases.len() ==> #[trigger] bases[i] == bases[0] {
        bases[0]
    } else {
        None
    }
}

pub open spec fn bases_view(bases: Seq<Option<String>>) -> Seq<Option<Seq<char>>> {
    bases.map_values(|b: Option<String>| match b {
        Some(s) => Some(s@),
        None => None,
    })
}

/// The pricing basis shared by the priced rows of a day, if there is one.
pub fn day_pricing_basis(bases: &[Option<String>]) -> (r: Option<String>)
    ensures
        match r {
            Some(b) => shared_pricing_basis(bases_view(bases@)) == Some(b@),
            None => shared_pricing_basis(bases_view(bases@)) is None,
        },
{
    let ghost v = bases_view(bases@);
    if bases.len() == 0 {
        return None;
    }
    let first = match &bases[0] {
        Some(b) => b,
        None => return None,
    };
    assert(v[0] == Some(first@));
    let mut i: usize = 1;
    while i < bases.len()
        invariant
            v == bases_view(bases@),
            1 <= i <= bases@.len(),
            v[0] == Some(first@),
            forall|k: int| 0 <= k < i ==> #[trigger] v[k] == v[0],
        decreases bases@.len() - i,
    {
        assert(v[i as int] == match bases@[i as int] {
            Some(s) => Some(s@),
            None => None::<Seq<char>>,
        });
        let same = match &bases[i] {
            Some(b) => str_eq(b.as_str(), first.as_str()),
            None => false,
        };
        if !same {
            return None;
        }
        i = i + 1;
    }
    Some(first.clone())
}

/// A day whose priced tokens cannot be attributed to one pricing basis
/// keeps no price: its priced tokens are withdrawn, the day is no longer
/// complete, and it has no priced observation. The last component says
/// whether the day keeps its cost.
pub fn attribute_day_pricing(
    priced_tokens: u64,
    complete: bool,
    priced_observed_through: Option<i128>,
    has_basis: bool,
) -> (r: (u64, bool, Option<i128>, bool))
    ensures
        r == if priced_tokens > 0 && !has_basis {
            (0u64, false, None::<i128>, false)
        } else {
            (priced_tokens, complete, priced_observed_through, true)
        },
{
    if priced_tokens > 0 && !has_basis {
        (0, false, None, false)
    } else {
        (priced_tokens, complete, priced_observed_through, true)
    }
}

} // verus!
