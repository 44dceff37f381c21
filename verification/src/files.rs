//! Stored per-file progress: completion states, pricing modes, when a
//! rollout needs another pass, and in which order pending work runs.
use vstd::prelude::*;
use vstd::string::StringSliceAdditionalSpecFns;
use vstd::utf8::encode_utf8;

use crate::index_line::names_view;
use crate::rollout::LineageMode;
use crate::text::str_eq;

verus! {

broadcast use vstd::string::group_string_axioms;

/// The parser version whose stored rows are current.
pub const ROLLOUT_PARSER_VERSION: i64 = 19;

/// How far the index got through one rollout file.
#[derive(Clone, Copy, Debug, PartialEq, Eq, Structural)]
pub enum FileCompletionState {
    Complete,
    Error,
    Indexing,
    DiscardingOverlongLine,
    Deferred,
    DeferredError,
    Unknown,
}

pub open spec fn completion_as_stored(state: FileCompletionState) -> Seq<char> {
    match state {
        FileCompletionState::Complete => "complete"@,
        FileCompletionState::Error => "error"@,
        FileCompletionState::Indexing => "indexing"@,
        FileCompletionState::DiscardingOverlongLine => "discarding-overlong-line"@,
        FileCompletionState::Deferred => "deferred"@,
        FileCompletionState::DeferredError => "deferred-error"@,
        FileCompletionState::Unknown => "unknown"@,
    }
}

pub open spec fn completion_from_stored(value: Seq<char>) -> FileCompletionState {
    if value == "complete"@ {
        FileCompletionState::Complete
    } else if value == "error"@ {
        FileCompletionState::Error
    } else if value == "indexing"@ {
        FileCompletionState::Indexing
    } else if value == "discarding-overlong-line"@ {
        FileCompletionState::DiscardingOverlongLine
    } else if value == "deferred"@ {
        FileCompletionState::Deferred
    } else if value == "deferred-error"@ {
        FileCompletionState::DeferredError
    } else {
        FileCompletionState::Unknown
    }
}

impl FileCompletionState {
    /// Reads a stored completion state; anything unrecognised is `Unknown`.
    pub fn from_stored(value: &str) -> (r: Self)
        ensures
            r == completion_from_stored(value@),
    {
        if str_eq(value, "complete") {
            FileCompletionState::Complete
        } else if str_eq(value, "error") {
            FileCompletionState::Error
        } else if str_eq(value, "indexing") {
            FileCompletionState::Indexing
        } else if str_eq(value, "discarding-overlong-line") {
            FileCompletionState::DiscardingOverlongLine
        } else if str_eq(value, "deferred") {
            FileCompletionState::Deferred
        } else if str_eq(value, "deferred-error") {
            FileCompletionState::DeferredError
        } else {
            FileCompletionState::Unknown
        }
    }

    pub fn as_stored(self) -> (r: &'static str)
        ensures
            r@ == completion_as_stored(self),
    {
        match self {
            FileCompletionState::Complete => "complete",
            FileCompletionState::Error => "error",
            FileCompletionState::Indexing => "indexing",
            FileCompletionState::DiscardingOverlongLine => "discarding-overlong-line",
            FileCompletionState::Deferred => "deferred",
            FileCompletionState::DeferredError => "deferred-error",
            FileCompletionState::Unknown => "unknown",
        }
    }

    pub fn has_parser_error(self) -> (r: bool)
        ensures
            r == (self == FileCompletionState::Error || self == FileCompletionState::DeferredError),
    {
        match self {
            FileCompletionState::Error | FileCompletionState::DeferredError => true,
            _ => false,
        }
    }

    pub fn is_deferred(self) -> (r: bool)
        ensures
            r == (self == FileCompletionState::Deferred || self
                == FileCompletionState::DeferredError),
    {
        match self {
            FileCompletionState::Deferred | FileCompletionState::DeferredError => true,
            _ => false,
        }
    }

    pub fn is_terminal(self) -> (r: bool)
        ensures
            r == (self == FileCompletionState::Complete || self == FileCompletionState::Error),
    {
        match self {
            FileCompletionState::Complete | FileCompletionState::Error => true,
            _ => false,
        }
    }
}

/// Every completion state survives a round trip through its stored form.
pub proof fn law_completion_stored_round_trip(state: FileCompletionState)
    ensures
        completion_from_stored(completion_as_stored(state)) == state,
{
    reveal_strlit("complete");
    reveal_strlit("error");
    reveal_strlit("indexing");
    reveal_strlit("discarding-overlong-line");
    reveal_strlit("deferred");
    reveal_strlit("deferred-error");
    reveal_strlit("unknown");
    assert("complete"@.len() == 8);
    assert("error"@.len() == 5);
    assert("indexing"@.len() == 8);
    assert("discarding-overlong-line"@.len() == 24);
    assert("deferred"@.len() == 8);
    assert("deferred-error"@.len() == 14);
    assert("unknown"@.len() == 7);
    assert("complete"@[0] != "indexing"@[0]);
    assert("complete"@[0] != "deferred"@[0]);
    assert("indexing"@[0] != "deferred"@[0]);
}

/// Which published price a model-day uses.
#[derive(Clone, Copy, Debug, PartialEq, Eq, PartialOrd, Ord, Structural)]
pub enum PricingMode {
    Standard,
    Fast,
}

pub open spec fn pricing_mode_as_stored(mode: PricingMode) -> Seq<char> {
    match mode {
        PricingMode::Standard => "standard"@,
        PricingMode::Fast => "fast"@,
    }
}

pub open spec fn pricing_mode_from_stored(value: Seq<char>) -> Result<PricingMode, ()> {
    if value == "standard"@ {
        Ok(PricingMode::Standard)
    } else if value == "fast"@ {
        Ok(PricingMode::Fast)
    } else {
        Err(())
    }
}

impl PricingMode {
    pub fn as_stored(&self) -> (r: &'static str)
        ensures
            r@ == pricing_mode_as_stored(*self),
    {
        match self {
            PricingMode::Standard => "standard",
            PricingMode::Fast => "fast",
        }
    }

    /// Reads a stored pricing mode; anything unrecognised is rejected.
    pub fn from_stored(value: &str) -> (r: Result<Self, ()>)
        ensures
            r == pricing_mode_from_stored(value@),
    {
        if str_eq(value, "standard") {
            Ok(PricingMode::Standard)
        } else if str_eq(value, "fast") {
            Ok(PricingMode::Fast)
        } else {
            Err(())
        }
    }
}

/// Every pricing mode survives a round trip through its stored form.
pub proof fn law_pricing_mode_stored_round_trip(mode: PricingMode)
    ensures
        pricing_mode_from_stored(pricing_mode_as_stored(mode)) == Ok::<PricingMode, ()>(mode),
{
    reveal_strlit("standard");
    reveal_strlit("fast");
    assert("standard"@.len() == 8);
    assert("fast"@.len() == 4);
}

/// What the index stored about one rollout file.
#[derive(Clone, Debug)]
pub struct StoredFileSummary {
    pub identity: String,
    pub size: u64,
    pub modified_ns: i64,
    pub parsed_offset: u64,
    pub completion_state: FileCompletionState,
    /// Julian day until which the file waits for a future-dated record.
    pub deferred_until_day: Option<i32>,
    pub parser_version: i64,
    pub lineage_mode: LineageMode,
    pub has_parent_dependency: bool,
    pub leaf_session_id: Option<String>,
}

/// The file was read to its end and finished, or it waits for a day that
/// has not come yet.
pub open spec fn spec_position_is_settled(f: StoredFileSummary, size: u64, today: i32) -> bool {
    ||| (f.parsed_offset == size && (f.completion_state == FileCompletionState::Complete
        || f.completion_state == FileCompletionState::Error))
    ||| (f.parsed_offset < size && (f.completion_state == FileCompletionState::Deferred
        || f.completion_state == FileCompletionState::DeferredError) && (f.deferred_until_day matches Some(
        day,
    ) && day > today))
}

/// The stored row no longer describes the file as it is now.
pub open spec fn spec_is_stale(f: StoredFileSummary, identity: Seq<char>, size: u64, modified_ns: i64) -> bool {
    ||| f.parser_version != ROLLOUT_PARSER_VERSION
    ||| f.identity@ != identity
    ||| f.size != size
    ||| f.modified_ns != modified_ns
}

/// The file needs another pass: it changed, another parser read it, its
/// accounting rests on another rollout, or its position is not settled.
pub open spec fn needs_work_spec(
    f: StoredFileSummary,
    identity: Seq<char>,
    size: u64,
    modified_ns: i64,
    today: i32,
) -> bool {
    spec_is_stale(f, identity, size, modified_ns) || f.lineage_mode == LineageMode::ParentResolved
        || f.lineage_mode == LineageMode::Unresolved || (f.lineage_mode
        == LineageMode::ExplicitBoundary && f.has_parent_dependency) || !spec_position_is_settled(
        f,
        size,
        today,
    )
}

/// The file still has unparsed or changed content.
pub open spec fn pending_spec(
    f: StoredFileSummary,
    identity: Seq<char>,
    size: u64,
    modified_ns: i64,
    today: i32,
) -> bool {
    spec_is_stale(f, identity, size, modified_ns) || !spec_position_is_settled(f, size, today)
}

impl StoredFileSummary {
    pub fn position_is_settled(&self, size: u64, today: i32) -> (r: bool)
        ensures
            r == spec_position_is_settled(*self, size, today),
    {
        let waiting = match self.deferred_until_day {
            Some(day) => day > today,
            None => false,
        };
        (self.parsed_offset == size && self.completion_state.is_terminal()) || (self.parsed_offset
            < size && self.completion_state.is_deferred() && waiting)
    }

    /// Whether the file needs another pass: it changed, it was parsed by
    /// another parser version, its accounting rests on another rollout, or
    /// its position is not settled.
    pub fn needs_work(&self, identity: &str, size: u64, modified_ns: i64, today: i32) -> (r: bool)
        ensures
            r == needs_work_spec(*self, identity@, size, modified_ns, today),
    {
        self.parser_version != ROLLOUT_PARSER_VERSION || !str_eq(self.identity.as_str(), identity)
            || self.size != size || self.modified_ns != modified_ns
            || self.lineage_mode.needs_dependency_check() || (self.lineage_mode
            == LineageMode::ExplicitBoundary && self.has_parent_dependency)
            || !self.position_is_settled(size, today)
    }

    /// Whether the file still has unparsed or changed content.
    pub fn is_pending(&self, identity: &str, size: u64, modified_ns: i64, today: i32) -> (r: bool)
        ensures
            r == pending_spec(*self, identity@, size, modified_ns, today),
    {
        self.parser_version != ROLLOUT_PARSER_VERSION || !str_eq(self.identity.as_str(), identity)
            || self.size != size || self.modified_ns != modified_ns || !self.position_is_settled(
            size,
            today,
        )
    }
}

/// Pending work is never skipped by the dependency recheck.
pub proof fn law_pending_implies_needs_work(
    f: StoredFileSummary,
    identity: Seq<char>,
    size: u64,
    modified_ns: i64,
    today: i32,
)
    ensures
        (spec_is_stale(f, identity, size, modified_ns) || !spec_position_is_settled(f, size, today))
            ==> (spec_is_stale(f, identity, size, modified_ns) || f.lineage_mode
            == LineageMode::ParentResolved || f.lineage_mode == LineageMode::Unresolved || (
        f.lineage_mode == LineageMode::ExplicitBoundary && f.has_parent_dependency)
            || !spec_position_is_settled(f, size, today)),
{
}

/// A pass never skips a file that is pending: whatever makes a file pending
/// (changed content, or a position not settled) also makes it need work.
pub proof fn law_pending_files_need_work(
    f: StoredFileSummary,
    identity: Seq<char>,
    size: u64,
    modified_ns: i64,
    today: i32,
)
    ensures
        pending_spec(f, identity, size, modified_ns, today) ==> needs_work_spec(
            f,
            identity,
            size,
            modified_ns,
            today,
        ),
{
}

/// A file that a pass left part-way (its stored offset is not its size) and
/// that does not wait for a later day is pending and needs work, even when
/// it has not changed since: the next pass resumes it. A file whose size,
/// modification time, identity or parser changed also needs work.
pub proof fn law_unfinished_or_changed_files_need_work(
    f: StoredFileSummary,
    identity: Seq<char>,
    size: u64,
    modified_ns: i64,
    today: i32,
)
    ensures
        (f.parsed_offset != size && !(f.deferred_until_day matches Some(d) && d > today)) ==> (
        pending_spec(f, identity, size, modified_ns, today) && needs_work_spec(
            f,
            identity,
            size,
            modified_ns,
            today,
        )),
        (f.size != size || f.modified_ns != modified_ns || f.identity@ != identity
            || f.parser_version != ROLLOUT_PARSER_VERSION) ==> (pending_spec(
            f,
            identity,
            size,
            modified_ns,
            today,
        ) && needs_work_spec(f, identity, size, modified_ns, today)),
        (f.completion_state == FileCompletionState::Indexing
            || f.completion_state == FileCompletionState::DiscardingOverlongLine
            || f.completion_state == FileCompletionState::Unknown) ==> (pending_spec(
            f,
            identity,
            size,
            modified_ns,
            today,
        ) && needs_work_spec(f, identity, size, modified_ns, today)),
{
}

/// `i64::MAX - modified_ns`, so that newer files sort first.
pub open spec fn newest_first_rank(modified_ns: i64) -> u64 {
    (i64::MAX - modified_ns) as u64
}

/// The sort key of rollout work: files that need work, then pending files,
/// then required parents, then newer files come first (`false` sorts before
/// `true`, smaller ranks before larger ones).
pub fn rollout_work_priority(
    needs_work: bool,
    is_pending: bool,
    is_required_parent: bool,
    modified_ns: i64,
) -> (r: (bool, bool, bool, u64))
    ensures
        r == (!needs_work, !is_pending, !is_required_parent, newest_first_rank(modified_ns)),
{
    let rank = (i64::MAX as i128 - modified_ns as i128) as u64;
    (!needs_work, !is_pending, !is_required_parent, rank)
}

/// A newer file gets a smaller rank.
pub proof fn law_newer_files_rank_first(older: i64, newer: i64)
    requires
        older < newer,
    ensures
        newest_first_rank(newer) < newest_first_rank(older),
{
}

/// `b` ends with `suffix`.
pub open spec fn ends_with_bytes(b: Seq<u8>, suffix: Seq<u8>) -> bool {
    suffix.len() <= b.len() && b.subrange(b.len() - suffix.len(), b.len() as int) == suffix
}

fn ends_with_exec(b: &[u8], len: usize, suffix: &[u8]) -> (r: bool)
    requires
        len <= b@.len(),
    ensures
        r == ends_with_bytes(b@.take(len as int), suffix@),
{
    if suffix.len() > len {
        return false;
    }
    let start = len - suffix.len();
    let mut k: usize = 0;
    while k < suffix.len()
        invariant
            start + suffix@.len() == len <= b@.len(),
            k <= suffix@.len(),
            forall|m: int| 0 <= m < k ==> b@[start + m] == suffix@[m],
        decreases suffix@.len() - k,
    {
        if b[start + k] != suffix[k] {
            assert(b@.take(len as int).subrange(start as int, len as int)[k as int] != suffix@[k as int]);
            return false;
        }
        k = k + 1;
    }
    assert(b@.take(len as int).subrange(start as int, len as int) =~= suffix@);
    true
}

/// Whether a rollout file is named after one of the required parents:
/// `<stem>.jsonl` where the stem ends with the parent's session id.
pub open spec fn spec_filename_matches_required_parent(
    file_name: Option<Seq<char>>,
    required_parent_ids: Seq<Seq<char>>,
) -> bool {
    match file_name {
        None => false,
        Some(name) => {
            let b = encode_utf8(name);
            let suffix = encode_utf8(".jsonl"@);
            &&& ends_with_bytes(b, suffix)
            &&& exists|i: int|
                0 <= i < required_parent_ids.len() && ends_with_bytes(
                    b.take(b.len() - suffix.len()),
                    encode_utf8(#[trigger] required_parent_ids[i]),
                )
        },
    }
}

/// Whether a rollout's file name (as UTF-8, when it is) marks it as one of
/// the required parents.
pub fn filename_matches_required_parent(
    file_name: Option<&str>,
    required_parent_ids: &[String],
) -> (r: bool)
    ensures
        r == spec_filename_matches_required_parent(
            match file_name {
                Some(n) => Some(n@),
                None => None,
            },
            names_view(required_parent_ids@),
        ),
{
    let name = match file_name {
        Some(n) => n,
        None => return false,
    };
    let b = name.as_bytes();
    let suffix = ".jsonl".as_bytes();
    if !ends_with_exec(b, b.len(), suffix) {
        assert(b@.take(b@.len() as int) =~= b@);
        return false;
    }
    assert(b@.take(b@.len() as int) =~= b@);
    let stem_len = b.len() - suffix.len();
    let mut i: usize = 0;
    while i < required_parent_ids.len()
        invariant
            i <= required_parent_ids@.len(),
            b@ == encode_utf8(name@),
            suffix@ == encode_utf8(".jsonl"@),
            stem_len == b@.len() - suffix@.len(),
            ends_with_bytes(b@, suffix@),
            file_name == Some(name),
            forall|j: int|
                0 <= j < i ==> !ends_with_bytes(
                    b@.take(stem_len as int),
                    encode_utf8(#[trigger] required_parent_ids@[j]@),
                ),
        decreases required_parent_ids@.len() - i,
    {
        let id = required_parent_ids[i].as_str().as_bytes();
        assert(id@ == encode_utf8(required_parent_ids@[i as int]@));
        if ends_with_exec(b, stem_len, id) {
            assert(ends_with_bytes(
                b@.take(stem_len as int),
                encode_utf8(required_parent_ids@[i as int]@),
            ));
            assert(b@.take(stem_len as int) == encode_utf8(name@).take(
                encode_utf8(name@).len() - encode_utf8(".jsonl"@).len(),
            ));
            assert(names_view(required_parent_ids@)[i as int] == required_parent_ids@[i as int]@);
            assert(spec_filename_matches_required_parent(Some(name@), names_view(required_parent_ids@)));
            return true;
        }
        i = i + 1;
    }
    false
}

/// A discovered rollout as the work order sees it.
#[derive(Clone, Copy, Debug, PartialEq, Eq, Structural)]
pub struct WorkItem {
    pub needs_work: bool,
    pub is_pending: bool,
    pub is_required_parent: bool,
    pub modified_ns: i64,
}

/// The work priority of an item as one number, smaller first: pending
/// before settled, required parents before others, newer before older.
/// It orders items as `rollout_work_priority` does among items that need
/// work.
pub open spec fn work_rank(w: WorkItem) -> int {
    (if w.is_pending {
        0int
    } else {
        0x2_0000_0000_0000_0000int
    }) + (if w.is_required_parent {
        0int
    } else {
        0x1_0000_0000_0000_0000int
    }) + newest_first_rank(w.modified_ns) as int
}

/// Item `a` runs before item `b`: a smaller rank, or the same rank and
/// found earlier.
pub open spec fn runs_before(items: Seq<WorkItem>, a: usize, b: usize) -> bool {
    work_rank(items[a as int]) < work_rank(items[b as int]) || (work_rank(items[a as int])
        == work_rank(items[b as int]) && a < b)
}

/// The work order: every item that needs work, once, in priority order,
/// ties kept in the order the items were found.
pub open spec fn is_work_order(items: Seq<WorkItem>, order: Seq<usize>) -> bool {
    &&& forall|i: usize| #[trigger] order.contains(i) <==> (i < items.len() && items[i as int].needs_work)
    &&& order.no_duplicates()
    &&& forall|a: int, b: int|
        0 <= a < b < order.len() ==> runs_before(items, #[trigger] order[a], #[trigger] order[b])
}

fn work_rank_exec(w: WorkItem) -> (r: u128)
    ensures
        r == work_rank(w),
{
    let (_, not_pending, not_parent, rank) = rollout_work_priority(
        w.needs_work,
        w.is_pending,
        w.is_required_parent,
        w.modified_ns,
    );
    let mut r: u128 = rank as u128;
    if not_pending {
        r = r + 0x2_0000_0000_0000_0000;
    }
    if not_parent {
        r = r + 0x1_0000_0000_0000_0000;
    }
    r
}

/// The rollouts that need work, in the order the pass works on them.
pub fn order_rollout_work(items: &[WorkItem]) -> (r: Vec<usize>)
    ensures
        is_work_order(items@, r@),
{
    let mut order: Vec<usize> = Vec::new();
    let mut i: usize = 0;
    while i < items.len()
        invariant
            i <= items@.len(),
            forall|x: usize| #[trigger] order@.contains(x) <==> (x < i && items@[x as int].needs_work),
            order@.no_duplicates(),
            forall|a: int, b: int|
                0 <= a < b < order@.len() ==> runs_before(items@, #[trigger] order@[a], #[trigger] order@[b]),
        decreases items@.len() - i,
    {
        if items[i].needs_work {
            let rank = work_rank_exec(items[i]);
            let mut p: usize = 0;
            let mut stop = false;
            while p < order.len() && !stop
                invariant
                    p <= order@.len(),
                    i < items@.len(),
                    rank == work_rank(items@[i as int]),
                    forall|x: usize| #[trigger] order@.contains(x) ==> x < items@.len(),
                    forall|k: int| 0 <= k < p ==> work_rank(items@[order@[k] as int]) <= rank,
                    stop ==> p < order@.len() && work_rank(items@[order@[p as int] as int]) > rank,
                decreases order@.len() - p, if stop { 0int } else { 1int },
            {
                assert(order@.contains(order@[p as int]));
                if work_rank_exec(items[order[p]]) > rank {
                    stop = true;
                } else {
                    p = p + 1;
                }
            }
            let ghost old_order = order@;
            proof {
                assert forall|k: int| p <= k < old_order.len() implies work_rank(items@[i as int])
                    < work_rank(items@[old_order[k] as int]) by {
                    if k > p {
                        assert(runs_before(items@, old_order[p as int], old_order[k]));
                    }
                }
                assert forall|k: int| 0 <= k < old_order.len() implies old_order[k] < i by {
                    assert(old_order.contains(old_order[k]));
                }
            }
            order.insert(p, i);
            proof {
                let n = order@;
                assert(n == old_order.insert(p as int, i));
                assert forall|x: usize| #[trigger] n.contains(x) <==> (x < i + 1 && items@[x as int].needs_work) by {
                    if n.contains(x) {
                        let k = choose|k: int| 0 <= k < n.len() && n[k] == x;
                        if k < p {
                            assert(old_order[k] == x);
                            assert(old_order.contains(x));
                        } else if k > p {
                            assert(old_order[k - 1] == x);
                            assert(old_order.contains(x));
                        }
                    }
                    if x < i + 1 && items@[x as int].needs_work {
                        if x == i {
                            assert(n[p as int] == i);
                        } else {
                            assert(old_order.contains(x));
                            let k = choose|k: int| 0 <= k < old_order.len() && old_order[k] == x;
                            if k < p {
                                assert(n[k] == x);
                            } else {
                                assert(n[k + 1] == x);
                            }
                        }
                    }
                }
                assert forall|a: int, b: int| 0 <= a < b < n.len() implies n[a] != n[b] by {
                    if a == p {
                        assert(n[b] == old_order[b - 1]);
                    } else if b == p {
                        assert(n[a] == old_order[a]);
                    } else {
                        let a0 = if a < p { a } else { a - 1 };
                        let b0 = if b < p { b } else { b - 1 };
                        assert(n[a] == old_order[a0] && n[b] == old_order[b0]);
                    }
                }
                assert forall|a: int, b: int| 0 <= a < b < n.len() implies runs_before(
                    items@,
                    #[trigger] n[a],
                    #[trigger] n[b],
                ) by {
                    if a == p {
                        assert(n[b] == old_order[b - 1]);
                    } else if b == p {
                        assert(n[a] == old_order[a]);
                    } else {
                        let a0 = if a < p { a } else { a - 1 };
                        let b0 = if b < p { b } else { b - 1 };
                        assert(n[a] == old_order[a0] && n[b] == old_order[b0]);
                    }
                }
            }
        }
        i = i + 1;
    }
    order
}

/// In the work order, pending files run before settled ones, and among
/// files equally pending, required parents run before the rest: a
/// parent's scan is ready before the children that depend on it.
pub proof fn law_pending_then_parents_run_first(items: Seq<WorkItem>, order: Seq<usize>, a: int, b: int)
    requires
        is_work_order(items, order),
        0 <= a < b < order.len(),
    ensures
        items[order[b] as int].is_pending ==> items[order[a] as int].is_pending,
        items[order[a] as int].is_pending == items[order[b] as int].is_pending
            && items[order[b] as int].is_required_parent ==> items[order[a] as int].is_required_parent,
{
    assert(runs_before(items, order[a], order[b]));
}

} // verus!
