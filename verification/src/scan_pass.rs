//! One indexing pass over the rollout files: its budgets, its retention
//! windows, which files need work and in which order, and how the pass
//! reports its outcome.
use vstd::prelude::*;

use crate::files::{needs_work_spec, pending_spec, StoredFileSummary};
use crate::report::UsageScanStatus;

verus! {

/// The most rollout bytes one pass reads.
pub const MAX_ROLLOUT_SCAN_BYTES: u64 = 536870912;

/// The most bytes one pass reads from one file.
pub const MAX_ROLLOUT_FILE_SCAN_BYTES: u64 = 268435456;

/// The most milliseconds one pass spends discovering or parsing files.
pub const MAX_ROLLOUT_SCAN_MILLIS: u128 = 2000;

/// How many UTC days of cost detail are kept, today included.
pub const COST_DETAIL_RETENTION_DAYS: i32 = 30;

/// The budget of one pass.
#[derive(Clone, Copy, Debug, PartialEq, Eq, Structural)]
pub struct ScanBudget {
    pub max_bytes: u64,
    pub max_file_bytes: u64,
    pub max_discovery_millis: u128,
    pub max_parse_millis: u128,
}

pub open spec fn min_u64(a: u64, b: u64) -> u64 {
    if a < b {
        a
    } else {
        b
    }
}

pub open spec fn min_u128(a: u128, b: u128) -> u128 {
    if a < b {
        a
    } else {
        b
    }
}

/// A requested budget, never beyond the pass's own limits.
pub open spec fn spec_capped_budget(b: ScanBudget) -> ScanBudget {
    ScanBudget {
        max_bytes: min_u64(b.max_bytes, MAX_ROLLOUT_SCAN_BYTES),
        max_file_bytes: min_u64(b.max_file_bytes, MAX_ROLLOUT_FILE_SCAN_BYTES),
        max_discovery_millis: min_u128(b.max_discovery_millis, MAX_ROLLOUT_SCAN_MILLIS),
        max_parse_millis: min_u128(b.max_parse_millis, MAX_ROLLOUT_SCAN_MILLIS),
    }
}

pub fn capped_budget(budget: ScanBudget) -> (r: ScanBudget)
    ensures
        r == spec_capped_budget(budget),
{
    ScanBudget {
        max_bytes: if budget.max_bytes < MAX_ROLLOUT_SCAN_BYTES {
            budget.max_bytes
        } else {
            MAX_ROLLOUT_SCAN_BYTES
        },
        max_file_bytes: if budget.max_file_bytes < MAX_ROLLOUT_FILE_SCAN_BYTES {
            budget.max_file_bytes
        } else {
            MAX_ROLLOUT_FILE_SCAN_BYTES
        },
        max_discovery_millis: if budget.max_discovery_millis < MAX_ROLLOUT_SCAN_MILLIS {
            budget.max_discovery_millis
        } else {
            MAX_ROLLOUT_SCAN_MILLIS
        },
        max_parse_millis: if budget.max_parse_millis < MAX_ROLLOUT_SCAN_MILLIS {
            budget.max_parse_millis
        } else {
            MAX_ROLLOUT_SCAN_MILLIS
        },
    }
}

/// The first day of token history and the first day of cost detail for a
/// pass on `today`.
pub fn retention_cutoffs(today: i32) -> (r: (i32, i32))
    requires
        today >= i32::MIN + 59,
    ensures
        r.0 == today - 59,
        r.1 == today - 29,
{
    (today - (crate::account::TOKEN_HISTORY_RETENTION_DAYS - 1), today - (
    COST_DETAIL_RETENTION_DAYS - 1))
}

/// Whether a discovered file needs work, and whether it is pending: a file
/// counts when it changed within the window or a child depends on it, and
/// then when no stored summary settles it.
pub open spec fn spec_file_work(
    stored: Option<StoredFileSummary>,
    identity: Seq<char>,
    size: u64,
    modified_ns: i64,
    cutoff_modified_ns: i64,
    is_required_parent: bool,
    today: i32,
) -> (bool, bool) {
    let needs_work = (modified_ns >= cutoff_modified_ns || is_required_parent) && match stored {
        None => true,
        Some(s) => needs_work_spec(s, identity, size, modified_ns, today),
    };
    let is_pending = needs_work && match stored {
        None => true,
        Some(s) => pending_spec(s, identity, size, modified_ns, today),
    };
    (needs_work, is_pending)
}

pub fn file_work(
    stored: Option<&StoredFileSummary>,
    identity: &str,
    size: u64,
    modified_ns: i64,
    cutoff_modified_ns: i64,
    is_required_parent: bool,
    today: i32,
) -> (r: (bool, bool))
    ensures
        r == spec_file_work(
            match stored {
                Some(s) => Some(*s),
                None => None,
            },
            identity@,
            size,
            modified_ns,
            cutoff_modified_ns,
            is_required_parent,
            today,
        ),
{
    let needs_work = (modified_ns >= cutoff_modified_ns || is_required_parent) && match stored {
        None => true,
        Some(s) => s.needs_work(identity, size, modified_ns, today),
    };
    let is_pending = needs_work && match stored {
        None => true,
        Some(s) => s.is_pending(identity, size, modified_ns, today),
    };
    (needs_work, is_pending)
}

/// The status of a pass: a failed pass is unavailable, an unfinished one
/// still indexing, and a finished one unavailable while files in the window
/// hold parser errors.
pub open spec fn spec_pass_status(failed: bool, all_complete: bool, error_files: u64) -> UsageScanStatus {
    if failed {
        UsageScanStatus::Unavailable
    } else if !all_complete {
        UsageScanStatus::Indexing
    } else if error_files > 0 {
        UsageScanStatus::Unavailable
    } else {
        UsageScanStatus::Complete
    }
}

/// A failed pass is unavailable; a pass that did not fail but did not
/// finish every file is still indexing, whatever errors the files hold;
/// only a finished pass reports parser errors as unavailable, and a
/// finished pass without them is complete.
pub proof fn law_unfinished_passes_are_indexing(failed: bool, all_complete: bool, error_files: u64)
    ensures
        failed ==> spec_pass_status(failed, all_complete, error_files) == UsageScanStatus::Unavailable,
        !failed && !all_complete ==> spec_pass_status(failed, all_complete, error_files)
            == UsageScanStatus::Indexing,
        !failed && all_complete && error_files > 0 ==> spec_pass_status(
            failed,
            all_complete,
            error_files,
        ) == UsageScanStatus::Unavailable,
        !failed && all_complete && error_files == 0 ==> spec_pass_status(
            failed,
            all_complete,
            error_files,
        ) == UsageScanStatus::Complete,
{
}

pub fn pass_status(failed: bool, all_complete: bool, error_files: u64) -> (r: UsageScanStatus)
    ensures
        r == spec_pass_status(failed, all_complete, error_files),
{
    if failed {
        UsageScanStatus::Unavailable
    } else if !all_complete {
        UsageScanStatus::Indexing
    } else if error_files > 0 {
        UsageScanStatus::Unavailable
    } else {
        UsageScanStatus::Complete
    }
}

/// Why a pass stopped, as its diagnostics name it.
pub open spec fn spec_pass_stop_reason(
    failed: bool,
    status: UsageScanStatus,
    pending_files: u64,
    error_files: u64,
    timed_out: bool,
    remaining_bytes: u64,
) -> Seq<char> {
    if failed {
        "error"@
    } else if status == UsageScanStatus::Complete {
        "complete"@
    } else if pending_files == 0 && error_files > 0 {
        "parser_errors"@
    } else if timed_out {
        "time"@
    } else if remaining_bytes == 0 {
        "bytes"@
    } else {
        "pending"@
    }
}

pub fn pass_stop_reason(
    failed: bool,
    status: UsageScanStatus,
    pending_files: u64,
    error_files: u64,
    timed_out: bool,
    remaining_bytes: u64,
) -> (r: &'static str)
    ensures
        r@ == spec_pass_stop_reason(
            failed,
            status,
            pending_files,
            error_files,
            timed_out,
            remaining_bytes,
        ),
{
    if failed {
        "error"
    } else if status == UsageScanStatus::Complete {
        "complete"
    } else if pending_files == 0 && error_files > 0 {
        "parser_errors"
    } else if timed_out {
        "time"
    } else if remaining_bytes == 0 {
        "bytes"
    } else {
        "pending"
    }
}

/// The bytes one file may read: the pass's remaining bytes, at most the
/// per-file limit.
pub fn file_allowance(remaining_bytes: u64, max_file_bytes: u64) -> (r: u64)
    ensures
        r == min_u64(remaining_bytes, max_file_bytes),
{
    if remaining_bytes < max_file_bytes {
        remaining_bytes
    } else {
        max_file_bytes
    }
}

/// The pass's remaining bytes after a file used part of its allowance.
pub fn remaining_after_file(remaining_bytes: u64, allowance: u64, file_remaining: u64) -> (r: u64)
    requires
        file_remaining <= allowance,
    ensures
        r == if remaining_bytes >= allowance - file_remaining {
            remaining_bytes - (allowance - file_remaining)
        } else {
            0
        },
{
    let used = allowance - file_remaining;
    if remaining_bytes >= used {
        remaining_bytes - used
    } else {
        0
    }
}

/// A pass never spends more than it was asked to nor more than its own
/// limits: each capped budget is the smaller of the request and the limit,
/// and a file may read no more than the pass has left nor more than the
/// per-file limit.
pub proof fn law_budgets_never_exceed_their_limits(b: ScanBudget, remaining_bytes: u64, max_file_bytes: u64)
    ensures
        ({
            let c = spec_capped_budget(b);
            &&& c.max_bytes <= b.max_bytes && c.max_bytes <= MAX_ROLLOUT_SCAN_BYTES
            &&& (c.max_bytes == b.max_bytes || c.max_bytes == MAX_ROLLOUT_SCAN_BYTES)
            &&& c.max_file_bytes <= b.max_file_bytes && c.max_file_bytes <= MAX_ROLLOUT_FILE_SCAN_BYTES
            &&& (c.max_file_bytes == b.max_file_bytes || c.max_file_bytes == MAX_ROLLOUT_FILE_SCAN_BYTES)
            &&& c.max_discovery_millis <= b.max_discovery_millis
            &&& c.max_discovery_millis <= MAX_ROLLOUT_SCAN_MILLIS
            &&& (c.max_discovery_millis == b.max_discovery_millis || c.max_discovery_millis
                == MAX_ROLLOUT_SCAN_MILLIS)
            &&& c.max_parse_millis <= b.max_parse_millis && c.max_parse_millis <= MAX_ROLLOUT_SCAN_MILLIS
            &&& (c.max_parse_millis == b.max_parse_millis || c.max_parse_millis
                == MAX_ROLLOUT_SCAN_MILLIS)
        }),
        min_u64(remaining_bytes, max_file_bytes) <= remaining_bytes,
        min_u64(remaining_bytes, max_file_bytes) <= max_file_bytes,
        min_u64(remaining_bytes, max_file_bytes) == remaining_bytes || min_u64(
            remaining_bytes,
            max_file_bytes,
        ) == max_file_bytes,
{
}

/// Why a pass stopped: a failure first; then a complete pass; then parser
/// errors when nothing else is pending; then running out of time, then of
/// bytes; otherwise work is simply pending.
pub proof fn law_stop_reasons_are_ordered(
    failed: bool,
    status: UsageScanStatus,
    pending_files: u64,
    error_files: u64,
    timed_out: bool,
    remaining_bytes: u64,
)
    ensures
        ({
            let r = spec_pass_stop_reason(failed, status, pending_files, error_files, timed_out, remaining_bytes);
            &&& failed ==> r == "error"@
            &&& !failed && status == UsageScanStatus::Complete ==> r == "complete"@
            &&& !failed && status != UsageScanStatus::Complete && pending_files == 0 && error_files > 0
                ==> r == "parser_errors"@
            &&& !failed && status != UsageScanStatus::Complete && !(pending_files == 0 && error_files
                > 0) && timed_out ==> r == "time"@
            &&& !failed && status != UsageScanStatus::Complete && !(pending_files == 0 && error_files
                > 0) && !timed_out && remaining_bytes == 0 ==> r == "bytes"@
            &&& !failed && status != UsageScanStatus::Complete && !(pending_files == 0 && error_files
                > 0) && !timed_out && remaining_bytes > 0 ==> r == "pending"@
        }),
{
}

} // verus!
