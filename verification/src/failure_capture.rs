//! Content-free failure evidence. A scan emits at most one report per
//! reason, with bounded counters and only safe source versions.
//!
//! The evidence of the scan in progress lives in a slot owned by the
//! caller (`None` when no scan runs); every operation takes that slot.
use vstd::prelude::*;
use vstd::string::StringSliceAdditionalSpecFns;
use vstd::utf8::encode_utf8;

use crate::text::{is_digit, str_eq};

verus! {

broadcast use vstd::string::group_string_axioms;

/// The most failures one scan keeps.
pub const MAX_SCAN_FAILURES: usize = 64;

/// The largest integer a JSON number carries exactly.
pub const MAX_SAFE_INTEGER: u64 = 9_007_199_254_740_991;

/// The most source versions one scan reports.
pub const MAX_SOURCE_VERSIONS: usize = 8;

#[derive(Clone, Copy, Debug, PartialEq, Eq, Structural)]
pub enum Provider {
    Claude,
    Codex,
}

#[derive(Clone, Copy, Debug, PartialEq, Eq, Structural)]
pub enum ParserReason {
    ReadFailed,
    InvalidUsageShape,
    InvalidCounter,
}

#[derive(Clone, Copy, Debug, PartialEq, Eq, Structural)]
pub enum ParserCode {
    ParserScanFailed,
    ParserRecordInvalid,
}

#[derive(Clone, Copy, Debug, PartialEq, Eq, Structural)]
pub enum ReviewStatus {
    Unknown,
    Reviewed,
    Unreviewed,
    Mixed,
}

#[derive(Clone, Copy, Debug, PartialEq, Eq, Structural)]
pub enum PricingCode {
    PricingCalculationFailed,
}

#[derive(Clone, Copy, Debug, PartialEq, Eq, Structural)]
pub enum PricingReason {
    MissingApplicablePrice,
    MissingCacheWritePrice,
    MissingFastLongContextPrice,
    MissingFastPrice,
    UnknownModel,
    InvalidTokenArithmetic,
}

#[derive(Clone, Copy, Debug, PartialEq, Eq, Structural)]
pub enum ProviderAccessCode {
    ProviderAccessFailed,
}

#[derive(Clone, Copy, Debug, PartialEq, Eq, Structural)]
pub enum AccessOperation {
    AccountUsage,
    RateLimits,
}

#[derive(Clone, Copy, Debug, PartialEq, Eq, Structural)]
pub enum AccessReason {
    Unavailable,
    Unauthorized,
    Timeout,
    InvalidResponse,
}

#[derive(Clone, Debug)]
pub struct ParserContext {
    pub parser_version: Option<u64>,
    pub source_versions: Vec<String>,
    pub review_status: ReviewStatus,
    pub files_seen: Option<u64>,
    pub records_accepted: Option<u64>,
    pub records_rejected: Option<u64>,
    pub reason: ParserReason,
}

#[derive(Clone, Debug)]
pub struct PricingContext {
    /// Julian day of the affected ranking day.
    pub ranking_day: Option<i32>,
    pub parser_version: Option<u64>,
    pub catalog_version: Option<String>,
    pub reason: PricingReason,
    pub observed_tokens: Option<u64>,
    pub priced_tokens: Option<u64>,
}

#[derive(Clone, Copy, Debug, PartialEq, Eq, Structural)]
pub struct ProviderAccessContext {
    pub operation: AccessOperation,
    pub reason: AccessReason,
    pub status_code: Option<u16>,
    pub retry_count: u32,
}

/// A content-free failure report.
#[derive(Clone, Debug)]
#[allow(inconsistent_fields)]
pub enum Failure {
    Parser { provider: Provider, code: ParserCode, context: ParserContext },
    Pricing { provider: Provider, code: PricingCode, context: PricingContext },
    ProviderAccess { provider: Provider, code: ProviderAccessCode, context: ProviderAccessContext },
    /// A database operation failed at the named stage.
    Database { stage: String },
}

/// Two failures describe the same reason: parser failures by provider,
/// code and reason; pricing failures also by ranking day; others when they
/// are equal.
pub open spec fn spec_same_reason(left: Failure, right: Failure) -> bool {
    match (left, right) {
        (
            Failure::Parser { provider: a, code: c, context: x },
            Failure::Parser { provider: b, code: d, context: y },
        ) => a == b && c == d && x.reason == y.reason,
        (
            Failure::Pricing { provider: a, code: c, context: x },
            Failure::Pricing { provider: b, code: d, context: y },
        ) => a == b && c == d && x.reason == y.reason && x.ranking_day == y.ranking_day,
        (
            Failure::ProviderAccess { provider: a, code: c, context: x },
            Failure::ProviderAccess { provider: b, code: d, context: y },
        ) => a == b && c == d && x == y,
        (Failure::Database { stage: a }, Failure::Database { stage: b }) => a@ == b@,
        _ => false,
    }
}

pub fn same_reason(left: &Failure, right: &Failure) -> (r: bool)
    ensures
        r == spec_same_reason(*left, *right),
{
    match (left, right) {
        (
            Failure::Parser { provider: a, code: c, context: x },
            Failure::Parser { provider: b, code: d, context: y },
        ) => *a == *b && *c == *d && x.reason == y.reason,
        (
            Failure::Pricing { provider: a, code: c, context: x },
            Failure::Pricing { provider: b, code: d, context: y },
        ) => *a == *b && *c == *d && x.reason == y.reason && x.ranking_day == y.ranking_day,
        (
            Failure::ProviderAccess { provider: a, code: c, context: x },
            Failure::ProviderAccess { provider: b, code: d, context: y },
        ) => *a == *b && *c == *d && *x == *y,
        (Failure::Database { stage: a }, Failure::Database { stage: b }) => str_eq(
            a.as_str(),
            b.as_str(),
        ),
        _ => false,
    }
}

/// Byte-wise lexicographic order, as `String`'s `Ord`.
pub open spec fn bytes_lt(a: Seq<u8>, b: Seq<u8>) -> bool
    decreases a.len(),
{
    if a.len() == 0 {
        b.len() > 0
    } else if b.len() == 0 {
        false
    } else if a[0] != b[0] {
        a[0] < b[0]
    } else {
        bytes_lt(a.drop_first(), b.drop_first())
    }
}

pub open spec fn string_lt(a: String, b: String) -> bool {
    bytes_lt(encode_utf8(a@), encode_utf8(b@))
}

fn string_less(a: &String, b: &String) -> (r: bool)
    ensures
        r == string_lt(*a, *b),
{
    let x = a.as_str().as_bytes();
    let y = b.as_str().as_bytes();
    let mut i: usize = 0;
    assert(x@.skip(0) =~= x@);
    assert(y@.skip(0) =~= y@);
    while i < x.len() && i < y.len() && x[i] == y[i]
        invariant
            i <= x@.len(),
            i <= y@.len(),
            x@ == encode_utf8(a@),
            y@ == encode_utf8(b@),
            bytes_lt(x@, y@) == bytes_lt(x@.skip(i as int), y@.skip(i as int)),
        decreases x@.len() - i,
    {
        assert(x@.skip(i as int).drop_first() =~= x@.skip(i + 1));
        assert(y@.skip(i as int).drop_first() =~= y@.skip(i + 1));
        i = i + 1;
    }
    if i == x.len() {
        i < y.len()
    } else if i == y.len() {
        false
    } else {
        x[i] < y[i]
    }
}

/// The evidence one scan collects.
#[derive(Clone, Debug)]
pub struct ScanEvidence {
    pub failures: Vec<Failure>,
    pub capture_epoch: u64,
    pub database_stages: Vec<String>,
    pub files_seen: u64,
    pub records_accepted: u64,
    pub records_rejected: u64,
    pub source_versions: Vec<String>,
    pub reviewed: bool,
    pub unreviewed: bool,
    pub provider_stopping: bool,
}

/// A run of digits separated by single dots, with at most `max_parts`
/// parts: what `split('.')` accepts when every part must be a non-empty
/// number.
pub open spec fn dotted_numeric(s: Seq<u8>, max_parts: nat) -> bool {
    &&& s.len() > 0
    &&& forall|i: int| 0 <= i < s.len() ==> (is_digit(#[trigger] s[i]) || s[i] == 46)
    &&& s[0] != 46
    &&& s.last() != 46
    &&& forall|i: int| 0 <= i < s.len() - 1 ==> (#[trigger] s[i] == 46 ==> s[i + 1] != 46)
    &&& count_dots(s) + 1 <= max_parts
}

pub open spec fn count_dots(s: Seq<u8>) -> nat
    decreases s.len(),
{
    if s.len() == 0 {
        0
    } else {
        count_dots(s.drop_last()) + if s.last() == 46 {
            1nat
        } else {
            0nat
        }
    }
}

/// A release of one to four numbers, optionally followed by `-alpha.`,
/// `-beta.` or `-rc.` and one to three numbers; at most 32 bytes.
pub open spec fn spec_safe_source_version(b: Seq<u8>) -> bool {
    let dash = crate::text::find_byte(b, 0, 45);
    let release = b.subrange(0, dash);
    &&& b.len() <= 32
    &&& dotted_numeric(release, 4)
    &&& dash < b.len() ==> {
        let suffix = b.subrange(dash + 1, b.len() as int);
        let dot = crate::text::find_byte(suffix, 0, 46);
        &&& dot < suffix.len()
        &&& {
            let channel = suffix.subrange(0, dot);
            channel == encode_utf8("alpha"@) || channel == encode_utf8("beta"@) || channel
                == encode_utf8("rc"@)
        }
        &&& dotted_numeric(suffix.subrange(dot + 1, suffix.len() as int), 3)
    }
}

fn dotted_numeric_exec(b: &[u8], start: usize, end: usize, max_parts: usize) -> (r: bool)
    requires
        start <= end <= b@.len(),
    ensures
        r == dotted_numeric(b@.subrange(start as int, end as int), max_parts as nat),
{
    let ghost s = b@.subrange(start as int, end as int);
    if start == end || b[start] == 46 || b[end - 1] == 46 {
        return false;
    }
    let mut dots: usize = 0;
    let mut i = start;
    while i < end
        invariant
            start <= i <= end <= b@.len(),
            start < end,
            s == b@.subrange(start as int, end as int),
            s[0] != 46,
            s.last() != 46,
            dots as nat == count_dots(s.take(i - start)),
            dots <= i - start,
            forall|k: int| 0 <= k < i - start ==> (is_digit(#[trigger] s[k]) || s[k] == 46),
            forall|k: int| 0 <= k < i - start - 1 ==> (#[trigger] s[k] == 46 ==> s[k + 1] != 46),
        decreases end - i,
    {
        let c = b[i];
        assert(s.take(i - start + 1).drop_last() =~= s.take(i - start));
        assert(s[i - start] == c);
        if !((48 <= c && c <= 57) || c == 46) {
            return false;
        }
        if c == 46 && i > start && b[i - 1] == 46 {
            assert(s[i - start - 1] == 46);
            return false;
        }
        if c == 46 {
            dots = dots + 1;
        }
        i = i + 1;
    }
    assert(s.take(end - start) =~= s);
    dots < max_parts
}

fn range_eq_bytes(b: &[u8], start: usize, end: usize, lit: &[u8]) -> (r: bool)
    requires
        start <= end <= b@.len(),
    ensures
        r == (b@.subrange(start as int, end as int) == lit@),
{
    if end - start != lit.len() {
        return false;
    }
    let mut k: usize = 0;
    while k < lit.len()
        invariant
            start + lit@.len() == end <= b@.len(),
            k <= lit@.len(),
            forall|m: int| 0 <= m < k ==> b@[start + m] == lit@[m],
        decreases lit@.len() - k,
    {
        if b[start + k] != lit[k] {
            assert(b@.subrange(start as int, end as int)[k as int] != lit@[k as int]);
            return false;
        }
        k = k + 1;
    }
    assert(b@.subrange(start as int, end as int) =~= lit@);
    true
}

/// Whether a source version is safe to report: numeric release parts and
/// a reviewed prerelease channel, and nothing else.
pub fn safe_source_version(value: &str) -> (r: bool)
    ensures
        r == spec_safe_source_version(value.spec_bytes()),
{
    let b = value.as_bytes();
    let dash = crate::text::find_byte_from(b, 0, 45);
    if b.len() > 32 || !dotted_numeric_exec(b, 0, dash, 4) {
        return false;
    }
    if dash == b.len() {
        return true;
    }
    let ghost suffix = b@.subrange(dash + 1, b@.len() as int);
    let dot = crate::text::find_byte_from(b, dash + 1, 46);
    proof {
        crate::text::lemma_find_byte_bounds(b@, dash + 1, 46);
        crate::text::lemma_find_byte_bounds(suffix, 0, 46);
        lemma_find_in_suffix(b@, dash + 1, 0);
    }
    if dot == b.len() {
        return false;
    }
    assert(suffix.subrange(0, dot - dash - 1) =~= b@.subrange(dash + 1, dot as int));
    assert(suffix.subrange(dot - dash, suffix.len() as int) =~= b@.subrange(
        dot + 1,
        b@.len() as int,
    ));
    let channel_ok = range_eq_bytes(b, dash + 1, dot, "alpha".as_bytes()) || range_eq_bytes(
        b,
        dash + 1,
        dot,
        "beta".as_bytes(),
    ) || range_eq_bytes(b, dash + 1, dot, "rc".as_bytes());
    channel_ok && dotted_numeric_exec(b, dot + 1, b.len(), 3)
}

proof fn lemma_find_in_suffix(b: Seq<u8>, base: int, k: int)
    requires
        0 <= base <= b.len(),
        0 <= k <= b.len() - base,
    ensures
        crate::text::find_byte(b.subrange(base, b.len() as int), k, 46) + base
            == crate::text::find_byte(b, base + k, 46),
    decreases b.len() - base - k,
{
    if k < b.len() - base {
        lemma_find_in_suffix(b, base, k + 1);
    }
}

/// One more, saturating at `MAX_SAFE_INTEGER`.
pub open spec fn bumped(n: u64) -> u64 {
    if n >= MAX_SAFE_INTEGER {
        MAX_SAFE_INTEGER
    } else {
        (n + 1) as u64
    }
}

fn bump(n: u64) -> (r: u64)
    ensures
        r == if n.saturating_add(1) < MAX_SAFE_INTEGER {
            n.saturating_add(1)
        } else {
            MAX_SAFE_INTEGER
        },
        n <= MAX_SAFE_INTEGER ==> r == bumped(n),
{
    let next = n.saturating_add(1);
    if next < MAX_SAFE_INTEGER {
        next
    } else {
        MAX_SAFE_INTEGER
    }
}

impl ScanEvidence {
    /// A fresh scan's evidence.
    pub fn new(capture_epoch: u64) -> (r: Self)
        ensures
            r.well_formed(),
            r.capture_epoch == capture_epoch,
            r.failures@.len() == 0,
            r.source_versions@.len() == 0,
            r.database_stages@.len() == 0,
            r.files_seen == 0 && r.records_accepted == 0 && r.records_rejected == 0,
            !r.reviewed && !r.unreviewed && !r.provider_stopping,
    {
        ScanEvidence {
            failures: Vec::new(),
            capture_epoch,
            database_stages: Vec::new(),
            files_seen: 0,
            records_accepted: 0,
            records_rejected: 0,
            source_versions: Vec::new(),
            reviewed: false,
            unreviewed: false,
            provider_stopping: false,
        }
    }

    /// The bounds a scan's evidence keeps: at most 64 failures, no two of
    /// the same reason; at most 8 distinct safe source versions in order;
    /// counters that a JSON number carries exactly.
    pub open spec fn well_formed(&self) -> bool {
        &&& self.failures@.len() <= MAX_SCAN_FAILURES
        &&& forall|i: int, j: int|
            0 <= i < j < self.failures@.len() ==> !spec_same_reason(
                #[trigger] self.failures@[i],
                #[trigger] self.failures@[j],
            )
        &&& self.source_versions@.len() <= MAX_SOURCE_VERSIONS
        &&& forall|i: int, j: int|
            0 <= i < j < self.source_versions@.len() ==> string_lt(
                #[trigger] self.source_versions@[i],
                #[trigger] self.source_versions@[j],
            )
        &&& forall|i: int|
            0 <= i < self.source_versions@.len() ==> spec_safe_source_version(
                encode_utf8(#[trigger] self.source_versions@[i]@),
            )
        &&& self.files_seen <= MAX_SAFE_INTEGER
        &&& self.records_accepted <= MAX_SAFE_INTEGER
        &&& self.records_rejected <= MAX_SAFE_INTEGER
    }
}

/// The slot of the scan in progress, or `None` outside a scan.
pub open spec fn slot_well_formed(scan: Option<ScanEvidence>) -> bool {
    scan matches Some(s) ==> s.well_formed()
}

/// Counts a rollout file seen by the scan.
pub fn file_seen(scan: &mut Option<ScanEvidence>)
    requires
        slot_well_formed(*old(scan)),
    ensures
        slot_well_formed(*final(scan)),
        match *old(scan) {
            None => *final(scan) == None::<ScanEvidence>,
            Some(s) => *final(scan) == Some(ScanEvidence { files_seen: bumped(s.files_seen), ..s }),
        },
{
    if let Some(s) = scan {
        s.files_seen = bump(s.files_seen);
    }
}

/// Counts a record the parser accepted.
pub fn record_accepted(scan: &mut Option<ScanEvidence>)
    requires
        slot_well_formed(*old(scan)),
    ensures
        slot_well_formed(*final(scan)),
        match *old(scan) {
            None => *final(scan) == None::<ScanEvidence>,
            Some(s) => *final(scan) == Some(
                ScanEvidence { records_accepted: bumped(s.records_accepted), ..s },
            ),
        },
{
    if let Some(s) = scan {
        s.records_accepted = bump(s.records_accepted);
    }
}

/// Counts a record the parser rejected.
pub fn record_rejected(scan: &mut Option<ScanEvidence>)
    requires
        slot_well_formed(*old(scan)),
    ensures
        slot_well_formed(*final(scan)),
        match *old(scan) {
            None => *final(scan) == None::<ScanEvidence>,
            Some(s) => *final(scan) == Some(
                ScanEvidence { records_rejected: bumped(s.records_rejected), ..s },
            ),
        },
{
    if let Some(s) = scan {
        s.records_rejected = bump(s.records_rejected);
    }
}

/// Marks that the provider is shutting down: later access failures are an
/// expected stop, not evidence.
pub fn provider_stopping(scan: &mut Option<ScanEvidence>)
    requires
        slot_well_formed(*old(scan)),
    ensures
        slot_well_formed(*final(scan)),
        match *old(scan) {
            None => *final(scan) == None::<ScanEvidence>,
            Some(s) => *final(scan) == Some(ScanEvidence { provider_stopping: true, ..s }),
        },
{
    if let Some(s) = scan {
        s.provider_stopping = true;
    }
}

/// The epoch failures are captured at: the scan's, or the global one
/// outside a scan.
pub fn capture_epoch(scan: &Option<ScanEvidence>, global_epoch: u64) -> (r: u64)
    ensures
        r == match *scan {
            Some(s) => s.capture_epoch,
            None => global_epoch,
        },
{
    match scan {
        Some(s) => s.capture_epoch,
        None => global_epoch,
    }
}

/// Some kept failure has the same reason.
pub open spec fn has_same_reason(failures: Seq<Failure>, failure: Failure) -> bool {
    exists|i: int| 0 <= i < failures.len() && spec_same_reason(#[trigger] failures[i], failure)
}

fn any_same_reason(failures: &Vec<Failure>, failure: &Failure) -> (r: bool)
    ensures
        r == has_same_reason(failures@, *failure),
{
    let mut i: usize = 0;
    while i < failures.len()
        invariant
            i <= failures@.len(),
            forall|k: int| 0 <= k < i ==> !spec_same_reason(#[trigger] failures@[k], *failure),
        decreases failures@.len() - i,
    {
        if same_reason(&failures[i], failure) {
            return true;
        }
        i = i + 1;
    }
    false
}

proof fn lemma_same_reason_symmetric(a: Failure, b: Failure)
    ensures
        spec_same_reason(a, b) == spec_same_reason(b, a),
{
}

/// Whether a scan keeps a new failure: there is room and no kept failure
/// has its reason.
pub open spec fn keeps(s: ScanEvidence, failure: Failure) -> bool {
    s.failures@.len() < MAX_SCAN_FAILURES && !has_same_reason(s.failures@, failure)
}

/// A scan reports a reason at most once: once a failure was captured, a
/// repeat of it (or of anything with its reason) is never kept again, and
/// capturing never drops a failure already kept.
pub proof fn law_repeated_failures_are_coalesced(failures: Seq<Failure>, failure: Failure, repeat: Failure)
    requires
        spec_same_reason(failure, repeat),
    ensures
        ({
            let after = if failures.len() < MAX_SCAN_FAILURES && !has_same_reason(failures, failure) {
                failures.push(failure)
            } else {
                failures
            };
            &&& !(after.len() < MAX_SCAN_FAILURES && !has_same_reason(after, repeat))
            &&& after.subrange(0, failures.len() as int) == failures
        }),
{
    let after = if failures.len() < MAX_SCAN_FAILURES && !has_same_reason(failures, failure) {
        failures.push(failure)
    } else {
        failures
    };
    assert(after.subrange(0, failures.len() as int) =~= failures);
    if after.len() < MAX_SCAN_FAILURES {
        if after == failures.push(failure) {
            assert(spec_same_reason(after[failures.len() as int], repeat));
        } else {
            let i = choose|i: int| 0 <= i < failures.len() && spec_same_reason(
                #[trigger] failures[i],
                failure,
            );
            assert(spec_same_reason(after[i], repeat));
        }
    }
}

/// Records a failure in the scan in progress, coalescing repeats; outside
/// a scan the failure is returned for immediate delivery.
pub fn capture(scan: &mut Option<ScanEvidence>, failure: Failure) -> (r: Option<Failure>)
    requires
        slot_well_formed(*old(scan)),
    ensures
        slot_well_formed(*final(scan)),
        match *old(scan) {
            None => *final(scan) == None::<ScanEvidence> && r == Some(failure),
            Some(s) => r is None && (*final(scan) matches Some(t) && t == ScanEvidence {
                failures: t.failures,
                ..s
            } && t.failures@ == if keeps(s, failure) {
                s.failures@.push(failure)
            } else {
                s.failures@
            }),
        },
{
    match scan {
        None => Some(failure),
        Some(s) => {
            if s.failures.len() < MAX_SCAN_FAILURES && !any_same_reason(&s.failures, &failure) {
                s.failures.push(failure);
            }
            None
        },
    }
}

/// The code a parser reason reports under: read failures fail the scan,
/// everything else fails one record.
pub open spec fn parser_code_for(reason: ParserReason) -> ParserCode {
    if reason == ParserReason::ReadFailed {
        ParserCode::ParserScanFailed
    } else {
        ParserCode::ParserRecordInvalid
    }
}

/// `f` is the parser failure that `parser` reports.
pub open spec fn is_parser_failure(
    f: Failure,
    provider: Provider,
    parser_version: i64,
    reason: ParserReason,
) -> bool {
    f matches Failure::Parser { provider: p, code: c, context: x } && p == provider && c
        == parser_code_for(reason) && x.reason == reason && x.parser_version == (
    if parser_version >= 0 {
        Some(parser_version as u64)
    } else {
        None
    }) && x.source_versions@.len() == 0 && x.review_status == ReviewStatus::Unknown
        && x.files_seen is None && x.records_accepted is None && x.records_rejected is None
}

/// How the scan slot changes when a failure satisfying `is_new` and of the
/// same reason as exactly those failures satisfying `same` is captured.
pub open spec fn captured_as(
    old_scan: Option<ScanEvidence>,
    new_scan: Option<ScanEvidence>,
    r: Option<Failure>,
    is_new: spec_fn(Failure) -> bool,
    same: spec_fn(Failure) -> bool,
) -> bool {
    match old_scan {
        None => new_scan is None && (r matches Some(f) && is_new(f)),
        Some(s) => r is None && (new_scan matches Some(t) && t == ScanEvidence {
            failures: t.failures,
            ..s
        } && if s.failures@.len() < MAX_SCAN_FAILURES && !(exists|i: int|
            0 <= i < s.failures@.len() && same(#[trigger] s.failures@[i])) {
            t.failures@.len() == s.failures@.len() + 1 && t.failures@.drop_last() == s.failures@
                && is_new(t.failures@.last())
        } else {
            t.failures@ == s.failures@
        }),
    }
}

proof fn lemma_capture_as(
    old_scan: Option<ScanEvidence>,
    new_scan: Option<ScanEvidence>,
    r: Option<Failure>,
    failure: Failure,
    is_new: spec_fn(Failure) -> bool,
    same: spec_fn(Failure) -> bool,
)
    requires
        is_new(failure),
        forall|g: Failure| #[trigger] same(g) == spec_same_reason(g, failure),
        match old_scan {
            None => new_scan == None::<ScanEvidence> && r == Some(failure),
            Some(s) => r is None && (new_scan matches Some(t) && t == ScanEvidence {
                failures: t.failures,
                ..s
            } && t.failures@ == if keeps(s, failure) {
                s.failures@.push(failure)
            } else {
                s.failures@
            }),
        },
    ensures
        captured_as(old_scan, new_scan, r, is_new, same),
{
    if let Some(s) = old_scan {
        let t = new_scan->Some_0;
        if keeps(s, failure) {
            assert(t.failures@.drop_last() =~= s.failures@);
        }
    }
}

/// Reports a parser failure.
pub fn parser(
    scan: &mut Option<ScanEvidence>,
    provider: Provider,
    parser_version: i64,
    reason: ParserReason,
) -> (r: Option<Failure>)
    requires
        slot_well_formed(*old(scan)),
    ensures
        slot_well_formed(*final(scan)),
        captured_as(
            *old(scan),
            *final(scan),
            r,
            |f: Failure| is_parser_failure(f, provider, parser_version, reason),
            |g: Failure|
                g matches Failure::Parser { provider: p, code: c, context: x } && p == provider && c
                    == parser_code_for(reason) && x.reason == reason,
        ),
{
    let failure = Failure::Parser {
        code: if reason == ParserReason::ReadFailed {
            ParserCode::ParserScanFailed
        } else {
            ParserCode::ParserRecordInvalid
        },
        provider,
        context: ParserContext {
            parser_version: if parser_version >= 0 {
                Some(parser_version as u64)
            } else {
                None
            },
            source_versions: Vec::new(),
            review_status: ReviewStatus::Unknown,
            files_seen: None,
            records_accepted: None,
            records_rejected: None,
            reason,
        },
    };
    let ghost old_scan = *scan;
    let r = capture(scan, failure);
    proof {
        lemma_capture_as(
            old_scan,
            *scan,
            r,
            failure,
            |f: Failure| is_parser_failure(f, provider, parser_version, reason),
            |g: Failure|
                g matches Failure::Parser { provider: p, code: c, context: x } && p == provider && c
                    == parser_code_for(reason) && x.reason == reason,
        );
    }
    r
}

pub open spec fn opt_str_view(v: Option<&str>) -> Option<Seq<char>> {
    match v {
        Some(s) => Some(s@),
        None => None,
    }
}

pub open spec fn opt_string_view(v: Option<String>) -> Option<Seq<char>> {
    match v {
        Some(s) => Some(s@),
        None => None,
    }
}

/// `f` is the pricing failure that `pricing` reports. Repricing can read
/// records of an older parser, so no parser version is attributed; lookup
/// inputs can be single messages, so no token totals are exported.
pub open spec fn is_pricing_failure(
    f: Failure,
    provider: Provider,
    day: Option<i32>,
    reason: PricingReason,
    catalog_version: Option<Seq<char>>,
) -> bool {
    f matches Failure::Pricing { provider: p, code: c, context: x } && p == provider && c
        == PricingCode::PricingCalculationFailed && x.ranking_day == day && x.reason == reason
        && x.parser_version is None && opt_string_view(x.catalog_version) == catalog_version
        && x.observed_tokens is None && x.priced_tokens is None
}

/// Reports a pricing failure for a ranking day.
pub fn pricing(
    scan: &mut Option<ScanEvidence>,
    provider: Provider,
    day: Option<i32>,
    reason: PricingReason,
    catalog_version: Option<&str>,
) -> (r: Option<Failure>)
    requires
        slot_well_formed(*old(scan)),
    ensures
        slot_well_formed(*final(scan)),
        captured_as(
            *old(scan),
            *final(scan),
            r,
            |f: Failure| is_pricing_failure(f, provider, day, reason, opt_str_view(catalog_version)),
            |g: Failure|
                g matches Failure::Pricing { provider: p, code: c, context: x } && p == provider && c
                    == PricingCode::PricingCalculationFailed && x.reason == reason && x.ranking_day
                    == day,
        ),
{
    let failure = Failure::Pricing {
        code: PricingCode::PricingCalculationFailed,
        provider,
        context: PricingContext {
            ranking_day: day,
            parser_version: None,
            catalog_version: match catalog_version {
                Some(v) => Some(v.to_owned()),
                None => None,
            },
            reason,
            observed_tokens: None,
            priced_tokens: None,
        },
    };
    let ghost old_scan = *scan;
    let r = capture(scan, failure);
    proof {
        lemma_capture_as(
            old_scan,
            *scan,
            r,
            failure,
            |f: Failure| is_pricing_failure(f, provider, day, reason, opt_str_view(catalog_version)),
            |g: Failure|
                g matches Failure::Pricing { provider: p, code: c, context: x } && p == provider && c
                    == PricingCode::PricingCalculationFailed && x.reason == reason && x.ranking_day
                    == day,
        );
    }
    r
}

/// The failure an access problem reports.
pub open spec fn access_failure(
    provider: Provider,
    operation: AccessOperation,
    reason: AccessReason,
) -> Failure {
    Failure::ProviderAccess {
        code: ProviderAccessCode::ProviderAccessFailed,
        provider,
        context: ProviderAccessContext { operation, reason, status_code: None, retry_count: 0 },
    }
}

/// Reports a provider access failure, unless the provider is stopping:
/// during shutdown the expected stop is not an attempted request failing.
pub fn access(
    scan: &mut Option<ScanEvidence>,
    provider: Provider,
    operation: AccessOperation,
    reason: AccessReason,
) -> (r: Option<Failure>)
    requires
        slot_well_formed(*old(scan)),
    ensures
        slot_well_formed(*final(scan)),
        if *old(scan) matches Some(s) && s.provider_stopping {
            r is None && *final(scan) == *old(scan)
        } else {
            captured_as(
                *old(scan),
                *final(scan),
                r,
                |f: Failure| f == access_failure(provider, operation, reason),
                |g: Failure| g == access_failure(provider, operation, reason),
            )
        },
{
    let stopping = match scan {
        Some(s) => s.provider_stopping,
        None => false,
    };
    if stopping {
        return None;
    }
    let failure = Failure::ProviderAccess {
        code: ProviderAccessCode::ProviderAccessFailed,
        provider,
        context: ProviderAccessContext { operation, reason, status_code: None, retry_count: 0 },
    };
    let ghost old_scan = *scan;
    let r = capture(scan, failure);
    proof {
        assert forall|g: Failure|
            (g == access_failure(provider, operation, reason)) == spec_same_reason(
                g,
                failure,
            ) by {
            if spec_same_reason(g, failure) {
                if let Failure::ProviderAccess { provider: p, code: c, context: x } = g {
                    assert(g == access_failure(provider, operation, reason));
                }
            }
        }
        lemma_capture_as(
            old_scan,
            *scan,
            r,
            failure,
            |f: Failure| f == access_failure(provider, operation, reason),
            |g: Failure| g == access_failure(provider, operation, reason),
        );
    }
    r
}

/// Some recorded stage has the same name.
pub open spec fn has_stage(stages: Seq<String>, stage: Seq<char>) -> bool {
    exists|i: int| 0 <= i < stages.len() && (#[trigger] stages[i])@ == stage
}

fn any_stage(stages: &Vec<String>, stage: &str) -> (r: bool)
    ensures
        r == has_stage(stages@, stage@),
{
    let mut i: usize = 0;
    while i < stages.len()
        invariant
            i <= stages@.len(),
            forall|k: int| 0 <= k < i ==> (#[trigger] stages@[k])@ != stage@,
        decreases stages@.len() - i,
    {
        if str_eq(stages[i].as_str(), stage) {
            return true;
        }
        i = i + 1;
    }
    false
}

/// Reports a database failure at most once per stage of a scan, and only
/// while the scan still has room for failures. `failure` describes the
/// operation that failed.
pub fn database_failure(scan: &mut Option<ScanEvidence>, stage: &str, failure: Failure) -> (r:
    Option<Failure>)
    requires
        slot_well_formed(*old(scan)),
    ensures
        slot_well_formed(*final(scan)),
        match *old(scan) {
            None => *final(scan) == None::<ScanEvidence> && r == Some(failure),
            Some(s) => r is None && if has_stage(s.database_stages@, stage@)
                || s.failures@.len() >= MAX_SCAN_FAILURES {
                *final(scan) == *old(scan)
            } else {
                *final(scan) matches Some(t) && t == ScanEvidence {
                    failures: t.failures,
                    database_stages: t.database_stages,
                    ..s
                } && t.database_stages@.len() == s.database_stages@.len() + 1
                    && t.database_stages@.drop_last() == s.database_stages@
                    && t.database_stages@.last()@ == stage@ && t.failures@ == if keeps(
                    s,
                    failure,
                ) {
                    s.failures@.push(failure)
                } else {
                    s.failures@
                }
            },
        },
{
    let capture_now = match scan {
        None => true,
        Some(s) => {
            if any_stage(&s.database_stages, stage) || s.failures.len() >= MAX_SCAN_FAILURES {
                false
            } else {
                let ghost before = s.database_stages@;
                s.database_stages.push(stage.to_owned());
                assert(s.database_stages@.drop_last() =~= before);
                true
            }
        },
    };
    if capture_now {
        capture(scan, failure)
    } else {
        None
    }
}

proof fn lemma_bytes_lt_irreflexive(a: Seq<u8>)
    ensures
        !bytes_lt(a, a),
    decreases a.len(),
{
    if a.len() > 0 {
        lemma_bytes_lt_irreflexive(a.drop_first());
    }
}

proof fn lemma_bytes_lt_transitive(a: Seq<u8>, b: Seq<u8>, c: Seq<u8>)
    requires
        bytes_lt(a, b),
        bytes_lt(b, c),
    ensures
        bytes_lt(a, c),
    decreases a.len(),
{
    if a.len() > 0 && b.len() > 0 && c.len() > 0 && a[0] == b[0] && b[0] == c[0] {
        lemma_bytes_lt_transitive(a.drop_first(), b.drop_first(), c.drop_first());
    }
}

proof fn lemma_bytes_lt_total(a: Seq<u8>, b: Seq<u8>)
    requires
        a != b,
    ensures
        bytes_lt(a, b) || bytes_lt(b, a),
    decreases a.len(),
{
    if a.len() > 0 && b.len() > 0 && a[0] == b[0] {
        if a.drop_first() == b.drop_first() {
            assert(a =~= seq![a[0]] + a.drop_first());
            assert(b =~= seq![b[0]] + b.drop_first());
        }
        lemma_bytes_lt_total(a.drop_first(), b.drop_first());
    } else if a.len() == 0 && b.len() == 0 {
        assert(a =~= b);
    }
}

pub open spec fn versions_sorted(v: Seq<String>) -> bool {
    forall|i: int, j: int| 0 <= i < j < v.len() ==> string_lt(#[trigger] v[i], #[trigger] v[j])
}

proof fn lemma_sorted_insert(before: Seq<String>, at: int, owned: String)
    requires
        versions_sorted(before),
        0 <= at <= before.len(),
        forall|k: int| 0 <= k < at ==> string_lt(#[trigger] before[k], owned),
        at < before.len() ==> string_lt(owned, before[at]),
    ensures
        versions_sorted(before.take(at).push(owned) + before.skip(at)),
{
    let after = before.take(at).push(owned) + before.skip(at);
    assert forall|j: int| at <= j < before.len() implies string_lt(owned, #[trigger] before[j]) by {
        if j > at {
            lemma_bytes_lt_transitive(
                encode_utf8(owned@),
                encode_utf8(before[at]@),
                encode_utf8(before[j]@),
            );
        }
    }
    assert forall|a: int, b: int| 0 <= a < b < after.len() implies string_lt(
        #[trigger] after[a],
        #[trigger] after[b],
    ) by {
        if a < at && b > at {
            assert(after[b] == before[b - 1]);
            assert(string_lt(owned, before[b - 1]));
            lemma_bytes_lt_transitive(
                encode_utf8(before[a]@),
                encode_utf8(owned@),
                encode_utf8(before[b - 1]@),
            );
        } else if a < at && b == at {
        } else if a == at {
            assert(after[b] == before[b - 1]);
        } else if a > at {
            assert(after[a] == before[a - 1]);
            assert(after[b] == before[b - 1]);
        } else {
            assert(after[a] == before[a]);
            assert(after[b] == before[b]);
        }
    }
}

proof fn lemma_bytes_lt_asymmetric(a: Seq<u8>, b: Seq<u8>)
    ensures
        bytes_lt(a, b) ==> !bytes_lt(b, a),
        !bytes_lt(a, a),
    decreases a.len(),
{
    if a.len() > 0 && b.len() > 0 && a[0] == b[0] {
        lemma_bytes_lt_asymmetric(a.drop_first(), b.drop_first());
    }
    if a.len() > 0 {
        lemma_bytes_lt_asymmetric(a.drop_first(), a.drop_first());
    }
}

/// The kept source versions as text.
pub open spec fn versions_view(v: Seq<String>) -> Seq<Seq<char>> {
    v.map_values(|s: String| s@)
}

/// The kept source versions are determined by which versions they hold:
/// two sorted lists with the same versions are the same list. With the
/// contract of `source_version` (the kept versions stay sorted, at most
/// eight, all safe, and hold exactly the earlier ones plus a newly recorded
/// one), the versions after a call are the sorted list of the versions
/// before it together with the new one.
pub proof fn law_source_versions_are_determined(a: Seq<String>, b: Seq<String>)
    requires
        versions_sorted(a),
        versions_sorted(b),
        forall|x: Seq<char>| has_version(a, x) <==> has_version(b, x),
    ensures
        versions_view(a) == versions_view(b),
    decreases a.len() + b.len(),
{
    if a.len() == 0 && b.len() == 0 {
        assert(versions_view(a) =~= versions_view(b));
    } else if a.len() == 0 {
        assert(has_version(b, b[0]@));
    } else if b.len() == 0 {
        assert(has_version(a, a[0]@));
    } else {
        assert(has_version(a, a[0]@));
        assert(has_version(b, b[0]@));
        if a[0]@ != b[0]@ {
            let j = choose|j: int| 0 <= j < b.len() && (#[trigger] b[j])@ == a[0]@;
            let i = choose|i: int| 0 <= i < a.len() && (#[trigger] a[i])@ == b[0]@;
            assert(j > 0 && i > 0);
            assert(string_lt(b[0], b[j]));
            assert(string_lt(a[0], a[i]));
            lemma_bytes_lt_asymmetric(encode_utf8(a[0]@), encode_utf8(b[0]@));
            assert(false);
        }
        let ta = a.drop_first();
        let tb = b.drop_first();
        assert forall|x: Seq<char>| has_version(ta, x) <==> has_version(tb, x) by {
            if has_version(ta, x) {
                let i = choose|i: int| 0 <= i < ta.len() && (#[trigger] ta[i])@ == x;
                assert(a[i + 1]@ == x);
                assert(string_lt(a[0], a[i + 1]));
                lemma_bytes_lt_asymmetric(encode_utf8(a[0]@), encode_utf8(a[0]@));
                assert(has_version(b, x));
                let j = choose|j: int| 0 <= j < b.len() && (#[trigger] b[j])@ == x;
                assert(j != 0);
                assert(tb[j - 1]@ == x);
            }
            if has_version(tb, x) {
                let j = choose|j: int| 0 <= j < tb.len() && (#[trigger] tb[j])@ == x;
                assert(b[j + 1]@ == x);
                assert(string_lt(b[0], b[j + 1]));
                lemma_bytes_lt_asymmetric(encode_utf8(b[0]@), encode_utf8(b[0]@));
                assert(has_version(a, x));
                let i = choose|i: int| 0 <= i < a.len() && (#[trigger] a[i])@ == x;
                assert(i != 0);
                assert(ta[i - 1]@ == x);
            }
        }
        assert(versions_sorted(ta)) by {
            assert forall|i: int, j: int| 0 <= i < j < ta.len() implies string_lt(#[trigger] ta[i], #[trigger] ta[j]) by {
                assert(string_lt(a[i + 1], a[j + 1]));
            }
        }
        assert(versions_sorted(tb)) by {
            assert forall|i: int, j: int| 0 <= i < j < tb.len() implies string_lt(#[trigger] tb[i], #[trigger] tb[j]) by {
                assert(string_lt(b[i + 1], b[j + 1]));
            }
        }
        law_source_versions_are_determined(ta, tb);
        assert(versions_view(ta).len() == versions_view(tb).len());
        assert(a.len() == b.len());
        assert(versions_view(a) =~= versions_view(b)) by {
            assert forall|k: int| 0 <= k < a.len() implies versions_view(a)[k] == versions_view(b)[k] by {
                assert(versions_view(a)[k] == a[k]@);
                assert(versions_view(b)[k] == b[k]@);
                if k > 0 {
                    assert(versions_view(ta)[k - 1] == ta[k - 1]@);
                    assert(versions_view(tb)[k - 1] == tb[k - 1]@);
                    assert(ta[k - 1] == a[k]);
                    assert(tb[k - 1] == b[k]);
                }
            }
        }
    }
}

/// Some kept source version reads the same.
pub open spec fn has_version(versions: Seq<String>, version: Seq<char>) -> bool {
    exists|i: int| 0 <= i < versions.len() && (#[trigger] versions[i])@ == version
}

/// Whether a scan records a newly seen source version.
pub open spec fn records_version(s: ScanEvidence, version: Seq<char>) -> bool {
    &&& s.source_versions@.len() < MAX_SOURCE_VERSIONS
    &&& spec_safe_source_version(encode_utf8(version))
    &&& !has_version(s.source_versions@, version)
}

/// Notes the source version of a rollout and whether it was reviewed. At
/// most eight distinct safe versions are kept, in order.
pub fn source_version(scan: &mut Option<ScanEvidence>, version: &str, reviewed: bool)
    requires
        slot_well_formed(*old(scan)),
    ensures
        slot_well_formed(*final(scan)),
        match *old(scan) {
            None => *final(scan) == None::<ScanEvidence>,
            Some(s) => *final(scan) matches Some(t) && t == ScanEvidence {
                source_versions: t.source_versions,
                reviewed: s.reviewed || reviewed,
                unreviewed: s.unreviewed || !reviewed,
                ..s
            } && t.source_versions@.len() == s.source_versions@.len() + if records_version(
                s,
                version@,
            ) {
                1int
            } else {
                0int
            } && forall|x: Seq<char>|
                has_version(t.source_versions@, x) <==> (has_version(s.source_versions@, x) || (
                records_version(s, version@) && x == version@)),
        },
{
    if let Some(s) = scan {
        s.reviewed = s.reviewed || reviewed;
        s.unreviewed = s.unreviewed || !reviewed;
        if s.source_versions.len() < MAX_SOURCE_VERSIONS && safe_source_version(version) {
            let mut present = false;
            let mut i: usize = 0;
            while i < s.source_versions.len()
                invariant
                    i <= s.source_versions@.len(),
                    present == exists|k: int|
                        0 <= k < i && (#[trigger] s.source_versions@[k])@ == version@,
                decreases s.source_versions@.len() - i,
            {
                if str_eq(s.source_versions[i].as_str(), version) {
                    present = true;
                }
                i = i + 1;
            }
            if !present {
                let owned = version.to_owned();
                let mut at: usize = 0;
                while at < s.source_versions.len() && string_less(&s.source_versions[at], &owned)
                    invariant
                        at <= s.source_versions@.len(),
                        forall|k: int| 0 <= k < at ==> string_lt(#[trigger] s.source_versions@[k], owned),
                    decreases s.source_versions@.len() - at,
                {
                    at = at + 1;
                }
                let ghost before = s.source_versions@;
                proof {
                    if at < before.len() {
                        assert(before[at as int]@ != owned@);
                        if encode_utf8(before[at as int]@) == encode_utf8(owned@) {
                            vstd::utf8::encode_utf8_decode_utf8(before[at as int]@);
                            vstd::utf8::encode_utf8_decode_utf8(owned@);
                        }
                        lemma_bytes_lt_total(encode_utf8(before[at as int]@), encode_utf8(owned@));
                    }
                }
                s.source_versions.insert(at, owned);
                assert(s.source_versions@ =~= before.take(at as int).push(owned) + before.skip(at as int));
                proof {
                    lemma_sorted_insert(before, at as int, owned);
                }
                assert forall|x: Seq<char>|
                    has_version(s.source_versions@, x) <==> (has_version(before, x) || x
                        == version@) by {
                    if has_version(before, x) {
                        let w = choose|w: int| 0 <= w < before.len() && (#[trigger] before[w])@ == x;
                        if w < at {
                            assert(s.source_versions@[w]@ == x);
                        } else {
                            assert(s.source_versions@[w + 1]@ == x);
                        }
                    }
                    if has_version(s.source_versions@, x) {
                        let w = choose|w: int|
                            0 <= w < s.source_versions@.len() && (
                            #[trigger] s.source_versions@[w])@ == x;
                        if w < at {
                            assert(before[w]@ == x);
                        } else if w > at {
                            assert(before[w - 1]@ == x);
                        }
                    }
                    if x == version@ {
                        assert(s.source_versions@[at as int]@ == x);
                    }
                }
            }
        }
    }
}

/// Guard of one scan: only the outermost `begin` owns the evidence.
pub struct ScanFailures {
    owns: bool,
}

pub open spec fn review_status_of(reviewed: bool, unreviewed: bool) -> ReviewStatus {
    if reviewed && unreviewed {
        ReviewStatus::Mixed
    } else if reviewed {
        ReviewStatus::Reviewed
    } else if unreviewed {
        ReviewStatus::Unreviewed
    } else {
        ReviewStatus::Unknown
    }
}

/// `out` is `f` as delivered at the end of scan `s`: parser failures carry
/// the scan's counters, versions and review status.
pub open spec fn finished_failure(out: Failure, f: Failure, s: ScanEvidence) -> bool {
    match f {
        Failure::Parser { provider, code, context: x } => out matches Failure::Parser {
            provider: p,
            code: c,
            context: y,
        } && p == provider && c == code && y.reason == x.reason && y.parser_version
            == x.parser_version && y.files_seen == Some(s.files_seen) && y.records_accepted == Some(
            s.records_accepted,
        ) && y.records_rejected == Some(s.records_rejected) && y.review_status
            == review_status_of(s.reviewed, s.unreviewed) && y.source_versions@.len()
            == s.source_versions@.len() && forall|i: int|
            0 <= i < s.source_versions@.len() ==> (#[trigger] y.source_versions@[i])@
                == s.source_versions@[i]@,
        _ => out == f,
    }
}

fn clone_strings(v: &Vec<String>) -> (r: Vec<String>)
    ensures
        r@.len() == v@.len(),
        forall|i: int| 0 <= i < v@.len() ==> (#[trigger] r@[i])@ == v@[i]@,
{
    let mut out: Vec<String> = Vec::new();
    let mut i: usize = 0;
    while i < v.len()
        invariant
            i <= v@.len(),
            out@.len() == i,
            forall|k: int| 0 <= k < i ==> (#[trigger] out@[k])@ == v@[k]@,
        decreases v@.len() - i,
    {
        out.push(v[i].clone());
        i = i + 1;
    }
    out
}

impl ScanFailures {
    /// Starts collecting evidence unless a scan is already running.
    pub fn begin(scan: &mut Option<ScanEvidence>, capture_epoch: u64) -> (r: ScanFailures)
        requires
            slot_well_formed(*old(scan)),
        ensures
            slot_well_formed(*final(scan)),
            *old(scan) is Some ==> !r.owns_scan() && *final(scan) == *old(scan),
            *old(scan) is None ==> r.owns_scan() && (*final(scan) matches Some(s) && s.capture_epoch
                == capture_epoch && s.failures@.len() == 0 && s.source_versions@.len() == 0
                && s.database_stages@.len() == 0 && s.files_seen == 0 && s.records_accepted == 0
                && s.records_rejected == 0 && !s.reviewed && !s.unreviewed
                && !s.provider_stopping),
    {
        if scan.is_some() {
            ScanFailures { owns: false }
        } else {
            *scan = Some(ScanEvidence::new(capture_epoch));
            ScanFailures { owns: true }
        }
    }

    pub closed spec fn owns_scan(&self) -> bool {
        self.owns
    }

    /// Ends the scan this guard owns: every kept failure is delivered at
    /// the scan's epoch, parser failures with the scan's counters.
    pub fn finish(self, scan: &mut Option<ScanEvidence>) -> (r: Vec<(Failure, u64)>)
        requires
            slot_well_formed(*old(scan)),
        ensures
            slot_well_formed(*final(scan)),
            !self.owns_scan() ==> r@.len() == 0 && *final(scan) == *old(scan),
            self.owns_scan() ==> *final(scan) == None::<ScanEvidence>,
            self.owns_scan() && *old(scan) is None ==> r@.len() == 0,
            self.owns_scan() ==> (*old(scan) matches Some(s) ==> r@.len() == s.failures@.len()
                && forall|i: int|
                0 <= i < r@.len() ==> (#[trigger] r@[i]).1 == s.capture_epoch && finished_failure(
                    r@[i].0,
                    s.failures@[i],
                    s,
                )),
    {
        let mut delivered: Vec<(Failure, u64)> = Vec::new();
        if !self.owns {
            return delivered;
        }
        let mut evidence = match scan.take() {
            Some(s) => s,
            None => return delivered,
        };
        let ghost original = evidence;
        let status = if evidence.reviewed && evidence.unreviewed {
            ReviewStatus::Mixed
        } else if evidence.reviewed {
            ReviewStatus::Reviewed
        } else if evidence.unreviewed {
            ReviewStatus::Unreviewed
        } else {
            ReviewStatus::Unknown
        };
        while evidence.failures.len() > 0
            invariant
                evidence.failures@ == original.failures@.skip(delivered@.len() as int),
                delivered@.len() <= original.failures@.len(),
                evidence.source_versions == original.source_versions,
                evidence.files_seen == original.files_seen,
                evidence.records_accepted == original.records_accepted,
                evidence.records_rejected == original.records_rejected,
                evidence.capture_epoch == original.capture_epoch,
                status == review_status_of(original.reviewed, original.unreviewed),
                forall|i: int|
                    0 <= i < delivered@.len() ==> (#[trigger] delivered@[i]).1
                        == original.capture_epoch && finished_failure(
                        delivered@[i].0,
                        original.failures@[i],
                        original,
                    ),
            decreases evidence.failures@.len(),
        {
            let ghost k: int = delivered@.len() as int;
            let failure = evidence.failures.remove(0);
            assert(failure == original.failures@[k]);
            assert(evidence.failures@ =~= original.failures@.skip(k + 1));
            let out = match failure {
                Failure::Parser { provider, code, context } => Failure::Parser {
                    provider,
                    code,
                    context: ParserContext {
                        parser_version: context.parser_version,
                        source_versions: clone_strings(&evidence.source_versions),
                        review_status: status,
                        files_seen: Some(evidence.files_seen),
                        records_accepted: Some(evidence.records_accepted),
                        records_rejected: Some(evidence.records_rejected),
                        reason: context.reason,
                    },
                },
                other => other,
            };
            delivered.push((out, evidence.capture_epoch));
        }
        assert(original.failures@.skip(delivered@.len() as int).len() == 0);
        delivered
    }
}

} // verus!
