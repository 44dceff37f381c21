//! Scanning one rollout file: when a stored cursor must be rebuilt, how
//! the bytes read are framed into records, and how the file's completion
//! state follows from the scan.
use vstd::prelude::*;

use crate::cli::{oversized_record_is_ignorable, spec_oversized_record_is_ignorable};
use crate::files::{FileCompletionState, ROLLOUT_PARSER_VERSION};
use crate::index_line::{IndexLineOutcome, MAX_ROLLOUT_LINE_BYTES};
use crate::parent::ResolvedParentSnapshot;
use crate::rollout::{
    clone_opt_string, LineageMode, ProviderOrdinalMode, RolloutScanState, ScanStateView,
};
use crate::tokens::TokenUsage;
use crate::text::str_eq;

verus! {

/// Where indexing of a file stands.
#[derive(Debug)]
pub struct FileCursor {
    pub identity: String,
    pub size: u64,
    pub modified_ns: i64,
    pub parsed_offset: u64,
    pub parsed_prefix_anchor: Option<String>,
    pub completion_state: FileCompletionState,
    pub deferred_until_day: Option<i32>,
    pub parser_version: i64,
    pub parser_state: RolloutScanState,
    pub accounting_ready: bool,
}

pub open spec fn completion_is_deferred(s: FileCompletionState) -> bool {
    s == FileCompletionState::Deferred || s == FileCompletionState::DeferredError
}

pub open spec fn completion_is_terminal(s: FileCompletionState) -> bool {
    s == FileCompletionState::Complete || s == FileCompletionState::Error
}

/// A stored cursor no longer describes the file: another parser wrote it,
/// the file was replaced or shrank, it changed in place at the same size,
/// or its completion state is unknown or disagrees with its deferral.
pub open spec fn spec_cursor_requires_rebuild(
    cursor: FileCursor,
    identity: Seq<char>,
    size: u64,
    modified_ns: i64,
) -> bool {
    ||| cursor.parser_version != ROLLOUT_PARSER_VERSION
    ||| cursor.identity@ != identity
    ||| size < cursor.size
    ||| size < cursor.parsed_offset
    ||| (size == cursor.size && modified_ns != cursor.modified_ns)
    ||| cursor.completion_state == FileCompletionState::Unknown
    ||| completion_is_deferred(cursor.completion_state) != (cursor.deferred_until_day is Some)
}

/// Whether the stored cursor must be discarded before indexing the file.
pub fn cursor_requires_rebuild(cursor: &FileCursor, identity: &str, size: u64, modified_ns: i64) -> (r:
    bool)
    ensures
        r == spec_cursor_requires_rebuild(*cursor, identity@, size, modified_ns),
{
    cursor.parser_version != ROLLOUT_PARSER_VERSION || !str_eq(cursor.identity.as_str(), identity)
        || size < cursor.size || size < cursor.parsed_offset || (size == cursor.size && modified_ns
        != cursor.modified_ns) || cursor.completion_state == FileCompletionState::Unknown
        || cursor.completion_state.is_deferred() != cursor.deferred_until_day.is_some()
}

/// A file whose cursor reached its unchanged end in a terminal state needs
/// no work.
pub open spec fn spec_cursor_is_settled(cursor: FileCursor, size: u64, modified_ns: i64) -> bool {
    &&& cursor.parsed_offset == size
    &&& cursor.size == size
    &&& cursor.modified_ns == modified_ns
    &&& completion_is_terminal(cursor.completion_state)
}

pub fn cursor_is_settled(cursor: &FileCursor, size: u64, modified_ns: i64) -> (r: bool)
    ensures
        r == spec_cursor_is_settled(*cursor, size, modified_ns),
{
    cursor.parsed_offset == size && cursor.size == size && cursor.modified_ns == modified_ns
        && cursor.completion_state.is_terminal()
}

/// The scan's own progress through a file.
#[derive(Clone, Copy, Debug, PartialEq, Eq, Structural)]
pub struct FileScan {
    pub parsed_offset: u64,
    /// The bytes the scan may still read.
    pub remaining_bytes: u64,
    pub parser_complete: bool,
    pub discarding_overlong_line: bool,
    pub deferred_until_day: Option<i32>,
}

/// What a chunk read from the file is.
#[derive(Clone, Copy, Debug, PartialEq, Eq, Structural)]
pub enum ChunkStep {
    /// The chunk was consumed without a record to index.
    Consumed,
    /// The record is the chunk's first `len` bytes.
    Record { len: usize },
    /// The scan stops before the chunk.
    Stop,
}

/// The most a read may take: the remaining budget, and one byte more than
/// the longest record, so that an overlong record is noticed.
pub open spec fn spec_read_limit(remaining_bytes: u64) -> u64 {
    if remaining_bytes < MAX_ROLLOUT_LINE_BYTES + 1 {
        remaining_bytes
    } else {
        (MAX_ROLLOUT_LINE_BYTES + 1) as u64
    }
}

pub fn read_limit(remaining_bytes: u64) -> (r: u64)
    ensures
        r == spec_read_limit(remaining_bytes),
{
    if remaining_bytes < MAX_ROLLOUT_LINE_BYTES as u64 + 1 {
        remaining_bytes
    } else {
        MAX_ROLLOUT_LINE_BYTES as u64 + 1
    }
}

/// The length of a newline-terminated chunk without its `\n` and an
/// optional `\r` before it.
pub open spec fn record_len(chunk: Seq<u8>) -> int {
    if chunk.len() >= 2 && chunk[chunk.len() - 2] == 13 {
        chunk.len() - 2
    } else {
        chunk.len() - 1
    }
}

/// The scan after consuming `bytes` bytes.
pub open spec fn advanced(scan: FileScan, bytes: int) -> FileScan {
    FileScan {
        parsed_offset: (scan.parsed_offset + bytes) as u64,
        remaining_bytes: (scan.remaining_bytes - bytes) as u64,
        ..scan
    }
}

/// A chunk without a newline: an overlong record when it filled the record
/// limit, otherwise a record still being written.
#[verifier::opaque]
pub open spec fn spec_unterminated_chunk(scan: FileScan, state: ScanStateView, chunk: Seq<u8>) -> (
    Result<ChunkStep, ()>,
    FileScan,
    ScanStateView,
) {
    let bytes = chunk.len() as int;
    let limit = spec_read_limit(scan.remaining_bytes);
    if limit == MAX_ROLLOUT_LINE_BYTES + 1 && bytes == limit {
        if state.record_ordinal == u64::MAX {
            (Err(()), scan, state)
        } else {
            let ignorable = spec_oversized_record_is_ignorable(chunk);
            (
                Ok(ChunkStep::Consumed),
                FileScan {
                    parser_complete: scan.parser_complete && ignorable,
                    discarding_overlong_line: true,
                    ..advanced(scan, bytes)
                },
                ScanStateView {
                    record_ordinal: (state.record_ordinal + 1) as u64,
                    parser_error_seen: state.parser_error_seen || !ignorable,
                    ..state
                },
            )
        }
    } else {
        (Ok(ChunkStep::Stop), scan, state)
    }
}

#[verifier::rlimit(50)]
fn unterminated_chunk(scan: &mut FileScan, state: &mut RolloutScanState, chunk: &[u8]) -> (r: Result<
    ChunkStep,
    (),
>)
    requires
        chunk@.len() <= spec_read_limit(old(scan).remaining_bytes),
        old(scan).parsed_offset + chunk@.len() <= u64::MAX,
    ensures
        (r, *final(scan), final(state)@) == spec_unterminated_chunk(*old(scan), old(state)@, chunk@),
{
    proof {
        reveal(spec_unterminated_chunk);
    }
    let bytes = chunk.len();
    let limit = read_limit(scan.remaining_bytes);
    if limit == MAX_ROLLOUT_LINE_BYTES as u64 + 1 && bytes as u64 == limit {
        if state.record_ordinal == u64::MAX {
            return Err(());
        }
        state.record_ordinal = state.record_ordinal + 1;
        if !oversized_record_is_ignorable(chunk) {
            scan.parser_complete = false;
            state.parser_error_seen = true;
        }
        scan.discarding_overlong_line = true;
        scan.remaining_bytes = scan.remaining_bytes - bytes as u64;
        scan.parsed_offset = scan.parsed_offset + bytes as u64;
        return Ok(ChunkStep::Consumed);
    }
    Ok(ChunkStep::Stop)
}

/// Framing one chunk, read with `spec_read_limit` up to and including a
/// newline. An empty read ends the scan. While an overlong record is being
/// discarded, chunks are skipped up to its newline. A chunk without a
/// newline is an overlong record when it filled the record limit: it takes
/// an ordinal, fails the scan unless it is a record type that may be
/// ignored, and starts a discard; otherwise it is a record still being
/// written, and the scan stops. A blank line is skipped; anything else is a
/// record. `Err` when the offset or the ordinal would overflow.
pub open spec fn spec_frame_chunk(scan: FileScan, state: ScanStateView, chunk: Seq<u8>) -> (
    Result<ChunkStep, ()>,
    FileScan,
    ScanStateView,
) {
    let bytes = chunk.len() as int;
    let ends_with_newline = bytes > 0 && chunk[bytes - 1] == 10;
    if bytes == 0 {
        (Ok(ChunkStep::Stop), scan, state)
    } else if scan.parsed_offset + bytes > u64::MAX {
        (Err(()), scan, state)
    } else if scan.discarding_overlong_line {
        (
            Ok(ChunkStep::Consumed),
            FileScan {
                discarding_overlong_line: !ends_with_newline,
                ..advanced(scan, bytes)
            },
            state,
        )
    } else if !ends_with_newline {
        spec_unterminated_chunk(scan, state, chunk)
    } else if record_len(chunk) == 0 {
        (Ok(ChunkStep::Consumed), advanced(scan, bytes), state)
    } else {
        (Ok(ChunkStep::Record { len: record_len(chunk) as usize }), scan, state)
    }
}

/// Frames one chunk read from the file; see `spec_frame_chunk`.
pub fn frame_chunk(scan: &mut FileScan, state: &mut RolloutScanState, chunk: &[u8]) -> (r: Result<
    ChunkStep,
    (),
>)
    requires
        chunk@.len() <= spec_read_limit(old(scan).remaining_bytes),
    ensures
        (r, *final(scan), final(state)@) == spec_frame_chunk(*old(scan), old(state)@, chunk@),
{
    let bytes = chunk.len();
    if bytes == 0 {
        return Ok(ChunkStep::Stop);
    }
    let ends_with_newline = chunk[bytes - 1] == 10;
    if scan.parsed_offset > u64::MAX - bytes as u64 {
        return Err(());
    }
    if scan.discarding_overlong_line {
        scan.remaining_bytes = scan.remaining_bytes - bytes as u64;
        scan.parsed_offset = scan.parsed_offset + bytes as u64;
        if ends_with_newline {
            scan.discarding_overlong_line = false;
        }
        return Ok(ChunkStep::Consumed);
    }
    if !ends_with_newline {
        return unterminated_chunk(scan, state, chunk);
    }
    let len = if bytes >= 2 && chunk[bytes - 2] == 13 {
        bytes - 2
    } else {
        bytes - 1
    };
    if len == 0 {
        scan.remaining_bytes = scan.remaining_bytes - bytes as u64;
        scan.parsed_offset = scan.parsed_offset + bytes as u64;
        return Ok(ChunkStep::Consumed);
    }
    Ok(ChunkStep::Record { len })
}

/// After a record of `bytes` bytes was indexed: a processed record takes
/// its ordinal and is consumed, failing the scan unless it was processed
/// cleanly; a deferred record ends the scan before it. `Ok(true)` when the
/// scan goes on.
pub open spec fn spec_after_record(
    scan: FileScan,
    state: ScanStateView,
    bytes: u64,
    outcome: IndexLineOutcome,
) -> (Result<bool, ()>, FileScan, ScanStateView) {
    match outcome {
        IndexLineOutcome::Processed(processed) => if state.record_ordinal == u64::MAX
            || scan.parsed_offset + bytes > u64::MAX {
            (Err(()), scan, state)
        } else {
            (
                Ok(true),
                FileScan { parser_complete: scan.parser_complete && processed, ..advanced(scan, bytes as int) },
                ScanStateView {
                    record_ordinal: (state.record_ordinal + 1) as u64,
                    parser_error_seen: state.parser_error_seen || !processed,
                    ..state
                },
            )
        },
        IndexLineOutcome::DeferredUntil(day) => (
            Ok(false),
            FileScan { deferred_until_day: Some(day), ..scan },
            state,
        ),
    }
}

pub fn after_record(
    scan: &mut FileScan,
    state: &mut RolloutScanState,
    bytes: u64,
    outcome: IndexLineOutcome,
) -> (r: Result<bool, ()>)
    requires
        bytes <= old(scan).remaining_bytes,
    ensures
        (r, *final(scan), final(state)@) == spec_after_record(*old(scan), old(state)@, bytes, outcome),
{
    match outcome {
        IndexLineOutcome::Processed(processed) => {
            if state.record_ordinal == u64::MAX || scan.parsed_offset > u64::MAX - bytes {
                return Err(());
            }
            state.record_ordinal = state.record_ordinal + 1;
            scan.parser_complete = scan.parser_complete && processed;
            state.parser_error_seen = state.parser_error_seen || !processed;
            scan.remaining_bytes = scan.remaining_bytes - bytes;
            scan.parsed_offset = scan.parsed_offset + bytes;
            Ok(true)
        },
        IndexLineOutcome::DeferredUntil(day) => {
            scan.deferred_until_day = Some(day);
            Ok(false)
        },
    }
}

/// The completion state a scan leaves: deferred (with or without a parser
/// error), still discarding an overlong record, complete or failed at the
/// end of the file, or still indexing.
pub open spec fn spec_scan_completion(scan: FileScan, size: u64) -> FileCompletionState {
    if scan.deferred_until_day is Some {
        if scan.parser_complete {
            FileCompletionState::Deferred
        } else {
            FileCompletionState::DeferredError
        }
    } else if scan.discarding_overlong_line && scan.parsed_offset < size {
        FileCompletionState::DiscardingOverlongLine
    } else if scan.parsed_offset == size {
        if scan.parser_complete {
            FileCompletionState::Complete
        } else {
            FileCompletionState::Error
        }
    } else {
        FileCompletionState::Indexing
    }
}

pub fn scan_completion(scan: &FileScan, size: u64) -> (r: FileCompletionState)
    ensures
        r == spec_scan_completion(*scan, size),
{
    if scan.deferred_until_day.is_some() {
        if scan.parser_complete {
            FileCompletionState::Deferred
        } else {
            FileCompletionState::DeferredError
        }
    } else if scan.discarding_overlong_line && scan.parsed_offset < size {
        FileCompletionState::DiscardingOverlongLine
    } else if scan.parsed_offset == size {
        if scan.parser_complete {
            FileCompletionState::Complete
        } else {
            FileCompletionState::Error
        }
    } else {
        FileCompletionState::Indexing
    }
}

pub open spec fn resolved_view(r: Option<&ResolvedParentSnapshot>) -> Option<(TokenUsage, Seq<char>)> {
    match r {
        Some(x) => Some((x.baseline, x.dependency_key@)),
        None => None,
    }
}

/// What settling a scanned file decides besides its cursor: whether the
/// file's new rows are dropped, and whether its stored usage is replaced.
#[derive(Clone, Copy, Debug, PartialEq, Eq, Structural)]
pub struct SettleEffect {
    pub clear_rows: bool,
    pub replace_existing_usage: bool,
}

/// The cursor fields settling may change.
pub struct SettledCursor {
    pub state: ScanStateView,
    pub parsed_offset: u64,
    pub completion_state: FileCompletionState,
    pub accounting_ready: bool,
}

pub open spec fn cursor_settle_view(c: FileCursor) -> SettledCursor {
    SettledCursor {
        state: c.parser_state@,
        parsed_offset: c.parsed_offset,
        completion_state: c.completion_state,
        accounting_ready: c.accounting_ready,
    }
}

/// The parent lookup a marker boundary needs: the parent snapshot at the
/// fork must be the marker's own baseline for the parent to confirm it.
pub open spec fn spec_marker_parent_query(s: ScanStateView) -> Option<(Seq<char>, i64)> {
    if s.marker_based_boundary && !s.embedded_ancestor_seen && s.parent_baseline is Some {
        match (s.parent_session_id, s.fork_timestamp_ns) {
            (Some(p), Some(f)) => Some((p, f)),
            _ => None,
        }
    } else {
        None
    }
}

/// The parent's confirmation of a marker boundary.
pub open spec fn spec_marker_resolution(
    s: ScanStateView,
    marker_parent: Option<(TokenUsage, Seq<char>)>,
) -> Option<(TokenUsage, Seq<char>)> {
    if spec_marker_parent_query(s) is Some {
        match (marker_parent, s.parent_baseline) {
            (Some((b, k)), Some(m)) if b == m => Some((b, k)),
            _ => None,
        }
    } else {
        None
    }
}

/// The state restarted from the file's start, keeping lineage facts.
pub open spec fn restarted(s: ScanStateView) -> ScanStateView {
    ScanStateView {
        active_model: None,
        active_turn_id: None,
        previous: None,
        record_ordinal: 0,
        provider_ordinal_mode: ProviderOrdinalMode::Unknown,
        snapshot_last_timestamp_ns: None,
        snapshot_timestamp_regressed: false,
        task_counter_reset_pending: false,
        ..s
    }
}

pub open spec fn marker_confirmed(s: ScanStateView, resolution: Option<(TokenUsage, Seq<char>)>) -> bool {
    s.embedded_ancestor_seen || s.marker_local_confirmation == Some(true) || resolution is Some
}

/// An unconfirmed marker boundary is dropped.
pub open spec fn spec_drop_unconfirmed_marker(
    s: ScanStateView,
    resolution: Option<(TokenUsage, Seq<char>)>,
) -> (ScanStateView, bool) {
    if s.marker_based_boundary && s.history_start_ordinal is Some && !marker_confirmed(s, resolution) {
        (
            ScanStateView {
                history_start_ordinal: None,
                marker_based_boundary: false,
                marker_candidate_invalidated: false,
                parent_baseline: None,
                marker_local_confirmation: None,
                ..s
            },
            true,
        )
    } else {
        (s, s.marker_candidate_invalidated)
    }
}

/// Whether settling a discovered rollout reaches the case that resolves
/// the parent of an embedded ancestor.
pub open spec fn spec_discovery_needs_ancestor(
    s: ScanStateView,
    parser_complete: bool,
    resolution: Option<(TokenUsage, Seq<char>)>,
) -> Option<(Seq<char>, i64)> {
    let s1 = spec_drop_unconfirmed_marker(s, resolution).0;
    if !(s1.history_start_ordinal is Some) && parser_complete && !s1.lineage_invalid
        && s1.embedded_ancestor_seen {
        match (s1.parent_session_id, s1.fork_timestamp_ns) {
            (Some(p), Some(f)) => Some((p, f)),
            _ => None,
        }
    } else {
        None
    }
}

/// Settling a rollout whose lineage was still being discovered when its
/// scan completed. A marker boundary confirmed by the rollout, its embedded
/// ancestor or its parent restarts the rollout as an explicit boundary; an
/// unconfirmed one is dropped. Without a boundary, a rollout with parser
/// errors or invalid lineage is unresolved; one without an embedded
/// ancestor restarts as an independent counter; one with an embedded
/// ancestor restarts parent-resolved when its parent snapshot resolves, and
/// is unresolved otherwise.
#[verifier::opaque]
pub open spec fn spec_settle_discovery(
    c: SettledCursor,
    parser_complete: bool,
    marker_parent: Option<(TokenUsage, Seq<char>)>,
    ancestor: Option<(TokenUsage, Seq<char>)>,
) -> (SettledCursor, SettleEffect) {
    let s = c.state;
    let resolution = spec_marker_resolution(s, marker_parent);
    let (s1, replace) = spec_drop_unconfirmed_marker(s, resolution);
    let c0 = SettledCursor { accounting_ready: false, ..c };
    if !s1.marker_based_boundary && s1.history_start_ordinal is Some {
        (
            SettledCursor {
                state: ScanStateView {
                    lineage_mode: LineageMode::ExplicitBoundary,
                    exclude_usage: false,
                    ..restarted(s1)
                },
                parsed_offset: 0,
                completion_state: FileCompletionState::Indexing,
                ..c0
            },
            SettleEffect { clear_rows: true, replace_existing_usage: true },
        )
    } else if s1.marker_based_boundary && s1.history_start_ordinal is Some {
        let parent_confirmed_only = s1.marker_local_confirmation != Some(true)
            && !s1.embedded_ancestor_seen;
        (
            SettledCursor {
                state: ScanStateView {
                    parent_dependency_key: if parent_confirmed_only {
                        match resolution {
                            Some((_, k)) => Some(k),
                            None => None,
                        }
                    } else {
                        None
                    },
                    parent_baseline: if parent_confirmed_only {
                        match resolution {
                            Some((b, _)) => Some(b),
                            None => None,
                        }
                    } else {
                        None
                    },
                    lineage_mode: LineageMode::ExplicitBoundary,
                    exclude_usage: false,
                    marker_based_boundary: false,
                    marker_candidate_invalidated: true,
                    marker_local_confirmation: None,
                    ..restarted(s1)
                },
                parsed_offset: 0,
                completion_state: FileCompletionState::Indexing,
                ..c0
            },
            SettleEffect { clear_rows: true, replace_existing_usage: true },
        )
    } else {
        let s2 = ScanStateView { last_turn_context_is_first: false, ..restarted(s1) };
        if !parser_complete || s2.lineage_invalid {
            (
                SettledCursor {
                    state: ScanStateView {
                        lineage_mode: LineageMode::Unresolved,
                        exclude_usage: true,
                        ..s2
                    },
                    ..c0
                },
                SettleEffect { clear_rows: true, replace_existing_usage: true },
            )
        } else if !s2.embedded_ancestor_seen {
            (
                SettledCursor {
                    state: ScanStateView {
                        lineage_mode: LineageMode::Independent,
                        exclude_usage: false,
                        ..s2
                    },
                    parsed_offset: 0,
                    completion_state: FileCompletionState::Indexing,
                    ..c0
                },
                SettleEffect { clear_rows: true, replace_existing_usage: replace },
            )
        } else {
            let resolved = if s2.parent_session_id is Some && s2.fork_timestamp_ns is Some {
                ancestor
            } else {
                None
            };
            match resolved {
                Some((b, k)) => (
                    SettledCursor {
                        state: ScanStateView {
                            lineage_mode: LineageMode::ParentResolved,
                            parent_dependency_key: Some(k),
                            parent_baseline: Some(b),
                            exclude_usage: false,
                            ..s2
                        },
                        parsed_offset: 0,
                        completion_state: FileCompletionState::Indexing,
                        ..c0
                    },
                    SettleEffect { clear_rows: true, replace_existing_usage: replace },
                ),
                None => (
                    SettledCursor {
                        state: ScanStateView {
                            lineage_mode: LineageMode::Unresolved,
                            exclude_usage: true,
                            ..s2
                        },
                        completion_state: FileCompletionState::Indexing,
                        ..c0
                    },
                    SettleEffect { clear_rows: true, replace_existing_usage: true },
                ),
            }
        }
    }
}

/// The parent lookup a marker boundary needs, if any.
pub fn marker_parent_query(state: &RolloutScanState) -> (r: Option<(String, i64)>)
    ensures
        match r {
            Some((p, f)) => spec_marker_parent_query(state@) == Some((p@, f)),
            None => spec_marker_parent_query(state@) is None,
        },
{
    if state.marker_based_boundary && !state.embedded_ancestor_seen && state.parent_baseline.is_some() {
        match (&state.parent_session_id, state.fork_timestamp_ns) {
            (Some(p), Some(f)) => Some((p.clone(), f)),
            _ => None,
        }
    } else {
        None
    }
}

fn marker_resolution(state: &RolloutScanState, marker_parent: Option<&ResolvedParentSnapshot>) -> (r:
    Option<(TokenUsage, String)>)
    ensures
        match r {
            Some((b, k)) => spec_marker_resolution(state@, resolved_view(marker_parent)) == Some(
                (b, k@),
            ),
            None => spec_marker_resolution(state@, resolved_view(marker_parent)) is None,
        },
{
    if marker_parent_query(state).is_none() {
        return None;
    }
    match (marker_parent, state.parent_baseline) {
        (Some(r), Some(m)) => if r.baseline == m {
            Some((r.baseline, r.dependency_key.clone()))
        } else {
            None
        },
        _ => None,
    }
}

#[verifier::rlimit(100)]
#[verifier::spinoff_prover]
fn drop_unconfirmed_marker(state: &mut RolloutScanState, confirmed_by_parent: bool) -> (replace: bool)
    ensures
        forall|res: Option<(TokenUsage, Seq<char>)>|
            (res is Some) == confirmed_by_parent ==> (final(state)@, replace)
                == spec_drop_unconfirmed_marker(old(state)@, res),
{
    let confirmed = state.embedded_ancestor_seen || state.marker_local_confirmation == Some(true)
        || confirmed_by_parent;
    if state.marker_based_boundary && state.history_start_ordinal.is_some() && !confirmed {
        state.history_start_ordinal = None;
        state.marker_based_boundary = false;
        state.marker_candidate_invalidated = false;
        state.parent_baseline = None;
        state.marker_local_confirmation = None;
        true
    } else {
        state.marker_candidate_invalidated
    }
}

/// The parent lookup settling a discovered rollout needs for an embedded
/// ancestor, if it reaches that case.
pub fn discovery_needs_ancestor(
    state: &RolloutScanState,
    parser_complete: bool,
    marker_parent: Option<&ResolvedParentSnapshot>,
) -> (r: Option<(String, i64)>)
    ensures
        match r {
            Some((p, f)) => spec_discovery_needs_ancestor(
                state@,
                parser_complete,
                spec_marker_resolution(state@, resolved_view(marker_parent)),
            ) == Some((p@, f)),
            None => spec_discovery_needs_ancestor(
                state@,
                parser_complete,
                spec_marker_resolution(state@, resolved_view(marker_parent)),
            ) is None,
        },
{
    let resolution = marker_resolution(state, marker_parent);
    let confirmed = state.embedded_ancestor_seen || state.marker_local_confirmation == Some(true)
        || resolution.is_some();
    let drops = state.marker_based_boundary && state.history_start_ordinal.is_some() && !confirmed;
    let has_start = state.history_start_ordinal.is_some() && !drops;
    if !has_start && parser_complete && !state.lineage_invalid && state.embedded_ancestor_seen {
        match (&state.parent_session_id, state.fork_timestamp_ns) {
            (Some(p), Some(f)) => Some((p.clone(), f)),
            _ => None,
        }
    } else {
        None
    }
}

#[verifier::rlimit(100)]
#[verifier::spinoff_prover]
fn restart_state(state: &mut RolloutScanState)
    ensures
        final(state)@ == restarted(old(state)@),
{
    state.active_model = None;
    state.active_turn_id = None;
    state.previous = None;
    state.record_ordinal = 0;
    state.provider_ordinal_mode = ProviderOrdinalMode::Unknown;
    state.snapshot_last_timestamp_ns = None;
    state.snapshot_timestamp_regressed = false;
    state.task_counter_reset_pending = false;
}

#[verifier::rlimit(100)]
#[verifier::spinoff_prover]
fn restart_at_confirmed_marker(state: &mut RolloutScanState, resolution: Option<(TokenUsage, String)>)
    ensures
        ({
            let s1 = old(state)@;
            let parent_confirmed_only = s1.marker_local_confirmation != Some(true)
                && !s1.embedded_ancestor_seen;
            final(state)@ == ScanStateView {
                parent_dependency_key: if parent_confirmed_only {
                    match resolution {
                        Some((_, k)) => Some(k@),
                        None => None,
                    }
                } else {
                    None
                },
                parent_baseline: if parent_confirmed_only {
                    match resolution {
                        Some((b, _)) => Some(b),
                        None => None,
                    }
                } else {
                    None
                },
                lineage_mode: LineageMode::ExplicitBoundary,
                exclude_usage: false,
                marker_based_boundary: false,
                marker_candidate_invalidated: true,
                marker_local_confirmation: None,
                ..restarted(s1)
            }
        }),
{
    let parent_confirmed_only = state.marker_local_confirmation != Some(true)
        && !state.embedded_ancestor_seen;
    if parent_confirmed_only {
        match resolution {
            Some((b, k)) => {
                state.parent_dependency_key = Some(k);
                state.parent_baseline = Some(b);
            },
            None => {
                state.parent_dependency_key = None;
                state.parent_baseline = None;
            },
        }
    } else {
        state.parent_dependency_key = None;
        state.parent_baseline = None;
    }
    state.lineage_mode = LineageMode::ExplicitBoundary;
    state.exclude_usage = false;
    state.marker_based_boundary = false;
    state.marker_candidate_invalidated = true;
    state.marker_local_confirmation = None;
    restart_state(state);
}

#[verifier::rlimit(100)]
#[verifier::spinoff_prover]
fn settle_unmarked(cursor: &mut FileCursor, parser_complete: bool, replace: bool, ancestor: Option<
    &ResolvedParentSnapshot,
>) -> (r: SettleEffect)
    requires
        !old(cursor).parser_state@.marker_based_boundary || !(
        old(cursor).parser_state@.history_start_ordinal is Some),
        !(!old(cursor).parser_state@.marker_based_boundary
            && old(cursor).parser_state@.history_start_ordinal is Some),
    ensures
        ({
            let c = cursor_settle_view(*old(cursor));
            let s2 = ScanStateView { last_turn_context_is_first: false, ..restarted(c.state) };
            let (expected, effect) = if !parser_complete || s2.lineage_invalid {
                (
                    SettledCursor {
                        state: ScanStateView {
                            lineage_mode: LineageMode::Unresolved,
                            exclude_usage: true,
                            ..s2
                        },
                        ..c
                    },
                    SettleEffect { clear_rows: true, replace_existing_usage: true },
                )
            } else if !s2.embedded_ancestor_seen {
                (
                    SettledCursor {
                        state: ScanStateView {
                            lineage_mode: LineageMode::Independent,
                            exclude_usage: false,
                            ..s2
                        },
                        parsed_offset: 0,
                        completion_state: FileCompletionState::Indexing,
                        ..c
                    },
                    SettleEffect { clear_rows: true, replace_existing_usage: replace },
                )
            } else {
                let resolved = if s2.parent_session_id is Some && s2.fork_timestamp_ns is Some {
                    resolved_view(ancestor)
                } else {
                    None
                };
                match resolved {
                    Some((b, k)) => (
                        SettledCursor {
                            state: ScanStateView {
                                lineage_mode: LineageMode::ParentResolved,
                                parent_dependency_key: Some(k),
                                parent_baseline: Some(b),
                                exclude_usage: false,
                                ..s2
                            },
                            parsed_offset: 0,
                            completion_state: FileCompletionState::Indexing,
                            ..c
                        },
                        SettleEffect { clear_rows: true, replace_existing_usage: replace },
                    ),
                    None => (
                        SettledCursor {
                            state: ScanStateView {
                                lineage_mode: LineageMode::Unresolved,
                                exclude_usage: true,
                                ..s2
                            },
                            completion_state: FileCompletionState::Indexing,
                            ..c
                        },
                        SettleEffect { clear_rows: true, replace_existing_usage: true },
                    ),
                }
            };
            cursor_settle_view(*final(cursor)) == expected && r == effect
        }),
        final(cursor).identity == old(cursor).identity,
        final(cursor).size == old(cursor).size,
        final(cursor).modified_ns == old(cursor).modified_ns,
        final(cursor).parsed_prefix_anchor == old(cursor).parsed_prefix_anchor,
        final(cursor).deferred_until_day == old(cursor).deferred_until_day,
        final(cursor).parser_version == old(cursor).parser_version,
{
    restart_state(&mut cursor.parser_state);
    cursor.parser_state.last_turn_context_is_first = false;
    if !parser_complete || cursor.parser_state.lineage_invalid {
        cursor.parser_state.lineage_mode = LineageMode::Unresolved;
        cursor.parser_state.exclude_usage = true;
        return SettleEffect { clear_rows: true, replace_existing_usage: true };
    }
    if !cursor.parser_state.embedded_ancestor_seen {
        cursor.parser_state.lineage_mode = LineageMode::Independent;
        cursor.parser_state.exclude_usage = false;
        cursor.parsed_offset = 0;
        cursor.completion_state = FileCompletionState::Indexing;
        return SettleEffect { clear_rows: true, replace_existing_usage: replace };
    }
    let resolved = if cursor.parser_state.parent_session_id.is_some()
        && cursor.parser_state.fork_timestamp_ns.is_some() {
        ancestor
    } else {
        None
    };
    match resolved {
        Some(r) => {
            cursor.parser_state.lineage_mode = LineageMode::ParentResolved;
            cursor.parser_state.parent_dependency_key = Some(r.dependency_key.clone());
            cursor.parser_state.parent_baseline = Some(r.baseline);
            cursor.parser_state.exclude_usage = false;
            cursor.parsed_offset = 0;
            cursor.completion_state = FileCompletionState::Indexing;
            SettleEffect { clear_rows: true, replace_existing_usage: replace }
        },
        None => {
            cursor.parser_state.lineage_mode = LineageMode::Unresolved;
            cursor.parser_state.exclude_usage = true;
            cursor.completion_state = FileCompletionState::Indexing;
            SettleEffect { clear_rows: true, replace_existing_usage: true }
        },
    }
}

/// Settles a rollout whose scan completed while its lineage was still
/// being discovered; see `spec_settle_discovery`. `marker_parent` is the
/// parent snapshot `marker_parent_query` asked for, and `ancestor` the one
/// `discovery_needs_ancestor` asked for. Any other cursor is left as is.
#[verifier::rlimit(100)]
#[verifier::spinoff_prover]
pub fn settle_discovery(
    cursor: &mut FileCursor,
    parser_complete: bool,
    marker_parent: Option<&ResolvedParentSnapshot>,
    ancestor: Option<&ResolvedParentSnapshot>,
) -> (r: SettleEffect)
    ensures
        old(cursor).completion_state == FileCompletionState::Complete
            && old(cursor).parser_state@.lineage_mode == LineageMode::Discovering ==> (
        cursor_settle_view(*final(cursor)), r) == spec_settle_discovery(
            cursor_settle_view(*old(cursor)),
            parser_complete,
            resolved_view(marker_parent),
            resolved_view(ancestor),
        ),
        !(old(cursor).completion_state == FileCompletionState::Complete
            && old(cursor).parser_state@.lineage_mode == LineageMode::Discovering) ==> *final(cursor)
            == *old(cursor) && r == (SettleEffect {
            clear_rows: false,
            replace_existing_usage: false,
        }),
        final(cursor).identity == old(cursor).identity,
        final(cursor).size == old(cursor).size,
        final(cursor).modified_ns == old(cursor).modified_ns,
        final(cursor).parsed_prefix_anchor == old(cursor).parsed_prefix_anchor,
        final(cursor).deferred_until_day == old(cursor).deferred_until_day,
        final(cursor).parser_version == old(cursor).parser_version,
{
    if !(cursor.completion_state == FileCompletionState::Complete
        && cursor.parser_state.lineage_mode == LineageMode::Discovering) {
        return SettleEffect { clear_rows: false, replace_existing_usage: false };
    }
    proof {
        reveal(spec_settle_discovery);
    }
    cursor.accounting_ready = false;
    let resolution = marker_resolution(&cursor.parser_state, marker_parent);
    let replace = drop_unconfirmed_marker(&mut cursor.parser_state, resolution.is_some());
    if !cursor.parser_state.marker_based_boundary && cursor.parser_state.history_start_ordinal.is_some() {
        cursor.parser_state.lineage_mode = LineageMode::ExplicitBoundary;
        cursor.parser_state.exclude_usage = false;
        restart_state(&mut cursor.parser_state);
        cursor.parsed_offset = 0;
        cursor.completion_state = FileCompletionState::Indexing;
        return SettleEffect { clear_rows: true, replace_existing_usage: true };
    }
    if cursor.parser_state.marker_based_boundary && cursor.parser_state.history_start_ordinal.is_some() {
        restart_at_confirmed_marker(&mut cursor.parser_state, resolution);
        cursor.parsed_offset = 0;
        cursor.completion_state = FileCompletionState::Indexing;
        return SettleEffect { clear_rows: true, replace_existing_usage: true };
    }
    settle_unmarked(cursor, parser_complete, replace, ancestor)
}

/// The parent lookup that checks a parent-resolved rollout's dependency.
pub open spec fn spec_dependency_query(s: ScanStateView) -> Option<(Seq<char>, i64)> {
    if s.lineage_mode == LineageMode::ParentResolved {
        match (s.parent_session_id, s.fork_timestamp_ns) {
            (Some(p), Some(f)) => Some((p, f)),
            _ => None,
        }
    } else {
        None
    }
}

/// A boundary whose marker candidate was replaced in a finished scan
/// becomes marker based again.
pub open spec fn spec_rearm_marker(s: ScanStateView, completion: FileCompletionState) -> ScanStateView {
    if completion_is_terminal(completion) && s.lineage_mode == LineageMode::ExplicitBoundary
        && !s.marker_based_boundary && s.marker_candidate_invalidated
        && s.history_start_ordinal is Some {
        ScanStateView { marker_based_boundary: true, marker_candidate_invalidated: false, ..s }
    } else {
        s
    }
}

/// Deciding whether a scanned rollout's usage may be accounted. A
/// parent-resolved rollout whose dependency is no longer the current parent
/// snapshot, or whose scan failed, becomes unresolved and restarts; a
/// complete parent-resolved or independent rollout is accounted; so is a
/// root, or a finished explicit boundary, that is not excluded.
#[verifier::opaque]
pub open spec fn spec_settle_accounting(
    c: SettledCursor,
    parser_complete: bool,
    current_dependency: Option<(TokenUsage, Seq<char>)>,
) -> (SettledCursor, SettleEffect) {
    let s1 = spec_rearm_marker(c.state, c.completion_state);
    let c1 = SettledCursor { state: s1, ..c };
    let none = SettleEffect { clear_rows: false, replace_existing_usage: false };
    if s1.lineage_mode == LineageMode::ParentResolved {
        let resolved = if spec_dependency_query(s1) is Some {
            current_dependency
        } else {
            None
        };
        let is_current = resolved matches Some((_, k)) && s1.parent_dependency_key == Some(k);
        if !is_current || !parser_complete {
            (
                SettledCursor {
                    state: ScanStateView {
                        lineage_mode: LineageMode::Unresolved,
                        exclude_usage: true,
                        parent_dependency_key: None,
                        parent_baseline: None,
                        ..s1
                    },
                    accounting_ready: false,
                    completion_state: FileCompletionState::Indexing,
                    ..c1
                },
                SettleEffect { clear_rows: true, replace_existing_usage: true },
            )
        } else if c.completion_state == FileCompletionState::Complete {
            (
                SettledCursor {
                    state: ScanStateView { exclude_usage: false, ..s1 },
                    accounting_ready: true,
                    ..c1
                },
                none,
            )
        } else {
            (c1, none)
        }
    } else if c.completion_state == FileCompletionState::Complete && s1.lineage_mode
        == LineageMode::Independent {
        (
            SettledCursor {
                state: ScanStateView { exclude_usage: false, ..s1 },
                accounting_ready: true,
                ..c1
            },
            none,
        )
    } else if (s1.lineage_mode == LineageMode::Root || (completion_is_terminal(c.completion_state)
        && s1.lineage_mode == LineageMode::ExplicitBoundary)) && !s1.exclude_usage {
        (SettledCursor { accounting_ready: true, ..c1 }, none)
    } else {
        (c1, none)
    }
}

#[verifier::rlimit(100)]
#[verifier::spinoff_prover]
fn rearm_marker(state: &mut RolloutScanState, completion: FileCompletionState)
    ensures
        final(state)@ == spec_rearm_marker(old(state)@, completion),
{
    if completion.is_terminal() && state.lineage_mode == LineageMode::ExplicitBoundary
        && !state.marker_based_boundary && state.marker_candidate_invalidated
        && state.history_start_ordinal.is_some() {
        state.marker_based_boundary = true;
        state.marker_candidate_invalidated = false;
    }
}

/// The parent lookup that checks a parent-resolved rollout's dependency,
/// asked once the marker of a finished boundary is re-armed.
pub fn dependency_query(state: &RolloutScanState, completion: FileCompletionState) -> (r: Option<
    (String, i64),
>)
    ensures
        match r {
            Some((p, f)) => spec_dependency_query(spec_rearm_marker(state@, completion)) == Some(
                (p@, f),
            ),
            None => spec_dependency_query(spec_rearm_marker(state@, completion)) is None,
        },
{
    if state.lineage_mode == LineageMode::ParentResolved {
        match (&state.parent_session_id, state.fork_timestamp_ns) {
            (Some(p), Some(f)) => Some((p.clone(), f)),
            _ => None,
        }
    } else {
        None
    }
}

fn dependency_is_current(state: &RolloutScanState, resolved: Option<&ResolvedParentSnapshot>) -> (r:
    bool)
    ensures
        r == (resolved_view(resolved) matches Some((_, k)) && state@.parent_dependency_key == Some(
            k,
        )),
{
    match (resolved, &state.parent_dependency_key) {
        (Some(r), Some(k)) => str_eq(k.as_str(), r.dependency_key.as_str()),
        _ => false,
    }
}

/// Decides whether a scanned rollout's usage may be accounted; see
/// `spec_settle_accounting`. `current_dependency` is the parent snapshot
/// `dependency_query` asked for.
#[verifier::rlimit(100)]
#[verifier::spinoff_prover]
pub fn settle_accounting(
    cursor: &mut FileCursor,
    parser_complete: bool,
    current_dependency: Option<&ResolvedParentSnapshot>,
) -> (r: SettleEffect)
    ensures
        (cursor_settle_view(*final(cursor)), r) == spec_settle_accounting(
            cursor_settle_view(*old(cursor)),
            parser_complete,
            resolved_view(current_dependency),
        ),
        final(cursor).identity == old(cursor).identity,
        final(cursor).size == old(cursor).size,
        final(cursor).modified_ns == old(cursor).modified_ns,
        final(cursor).parsed_prefix_anchor == old(cursor).parsed_prefix_anchor,
        final(cursor).deferred_until_day == old(cursor).deferred_until_day,
        final(cursor).parser_version == old(cursor).parser_version,
{
    proof {
        reveal(spec_settle_accounting);
    }
    let completion = cursor.completion_state;
    rearm_marker(&mut cursor.parser_state, completion);
    let none = SettleEffect { clear_rows: false, replace_existing_usage: false };
    if cursor.parser_state.lineage_mode == LineageMode::ParentResolved {
        let resolved = if cursor.parser_state.parent_session_id.is_some()
            && cursor.parser_state.fork_timestamp_ns.is_some() {
            current_dependency
        } else {
            None
        };
        let is_current = dependency_is_current(&cursor.parser_state, resolved);
        if !is_current || !parser_complete {
            cursor.parser_state.lineage_mode = LineageMode::Unresolved;
            cursor.parser_state.exclude_usage = true;
            cursor.parser_state.parent_dependency_key = None;
            cursor.parser_state.parent_baseline = None;
            cursor.accounting_ready = false;
            cursor.completion_state = FileCompletionState::Indexing;
            return SettleEffect { clear_rows: true, replace_existing_usage: true };
        }
        if completion == FileCompletionState::Complete {
            cursor.parser_state.exclude_usage = false;
            cursor.accounting_ready = true;
        }
        return none;
    }
    if completion == FileCompletionState::Complete && cursor.parser_state.lineage_mode
        == LineageMode::Independent {
        cursor.parser_state.exclude_usage = false;
        cursor.accounting_ready = true;
    } else if (cursor.parser_state.lineage_mode == LineageMode::Root || (completion.is_terminal()
        && cursor.parser_state.lineage_mode == LineageMode::ExplicitBoundary))
        && !cursor.parser_state.exclude_usage {
        cursor.accounting_ready = true;
    }
    none
}

/// What a stored cursor's parent dependency requires before a rescan.
#[derive(Clone, Copy, Debug, PartialEq, Eq, Structural)]
pub enum StoredDependencyAction {
    /// The dependency is still current, or the cursor has none.
    Keep,
    /// A parent-confirmed boundary lost its parent: index the file anew.
    ResetFile,
    /// Drop the accounting that rested on the old parent snapshot.
    ResetDependents,
}

/// A stored cursor rests on a parent when it is parent-resolved or
/// unresolved, or a boundary its parent confirmed.
pub open spec fn spec_stored_dependency_checked(s: ScanStateView) -> bool {
    s.lineage_mode == LineageMode::ParentResolved || s.lineage_mode == LineageMode::Unresolved || (
    s.lineage_mode == LineageMode::ExplicitBoundary && s.parent_dependency_key is Some)
}

/// The parent lookup a stored dependency check needs: none for a lineage
/// already known to be invalid.
pub open spec fn spec_stored_dependency_query(s: ScanStateView) -> Option<(Seq<char>, i64)> {
    if spec_stored_dependency_checked(s) && !s.lineage_invalid {
        match (s.parent_session_id, s.fork_timestamp_ns) {
            (Some(p), Some(f)) => Some((p, f)),
            _ => None,
        }
    } else {
        None
    }
}

pub open spec fn spec_stored_dependency_action(
    s: ScanStateView,
    resolved: Option<(TokenUsage, Seq<char>)>,
) -> StoredDependencyAction {
    if !spec_stored_dependency_checked(s) {
        StoredDependencyAction::Keep
    } else {
        let r = if spec_stored_dependency_query(s) is Some {
            resolved
        } else {
            None
        };
        let is_current = r matches Some((_, k)) && (s.lineage_mode == LineageMode::ParentResolved
            || s.lineage_mode == LineageMode::ExplicitBoundary) && s.parent_dependency_key == Some(
            k,
        );
        if is_current {
            StoredDependencyAction::Keep
        } else if s.lineage_mode == LineageMode::ExplicitBoundary {
            StoredDependencyAction::ResetFile
        } else {
            StoredDependencyAction::ResetDependents
        }
    }
}

pub fn stored_dependency_query(state: &RolloutScanState) -> (r: Option<(String, i64)>)
    ensures
        match r {
            Some((p, f)) => spec_stored_dependency_query(state@) == Some((p@, f)),
            None => spec_stored_dependency_query(state@) is None,
        },
{
    let checked = state.lineage_mode.needs_dependency_check() || (state.lineage_mode
        == LineageMode::ExplicitBoundary && state.parent_dependency_key.is_some());
    if checked && !state.lineage_invalid {
        match (&state.parent_session_id, state.fork_timestamp_ns) {
            (Some(p), Some(f)) => Some((p.clone(), f)),
            _ => None,
        }
    } else {
        None
    }
}

/// Whether a stored cursor may be resumed against the parent snapshot that
/// `stored_dependency_query` asked for.
pub fn stored_dependency_action(state: &RolloutScanState, resolved: Option<&ResolvedParentSnapshot>) -> (r:
    StoredDependencyAction)
    ensures
        r == spec_stored_dependency_action(state@, resolved_view(resolved)),
{
    let checked = state.lineage_mode.needs_dependency_check() || (state.lineage_mode
        == LineageMode::ExplicitBoundary && state.parent_dependency_key.is_some());
    if !checked {
        return StoredDependencyAction::Keep;
    }
    let r = if stored_dependency_query(state).is_some() {
        resolved
    } else {
        None
    };
    let is_current = (state.lineage_mode == LineageMode::ParentResolved || state.lineage_mode
        == LineageMode::ExplicitBoundary) && dependency_is_current(state, r);
    if is_current {
        StoredDependencyAction::Keep
    } else if state.lineage_mode == LineageMode::ExplicitBoundary {
        StoredDependencyAction::ResetFile
    } else {
        StoredDependencyAction::ResetDependents
    }
}

/// A rollout that is excluded and of an unsupported schema is skipped to
/// its end: nothing in it can be counted.
pub fn scan_fast_forwards(state: &RolloutScanState) -> (r: bool)
    ensures
        r == (state@.exclude_usage && !state@.schema_supported),
{
    state.exclude_usage && !state.schema_supported
}

/// Resuming a counted rollout before its end withdraws it from accounting
/// until the scan finishes again.
pub open spec fn spec_resume_withdraws_accounting(s: ScanStateView, parsed_offset: u64, size: u64) -> bool {
    parsed_offset < size && (s.lineage_mode == LineageMode::Independent || s.lineage_mode
        == LineageMode::ParentResolved || (s.lineage_mode == LineageMode::ExplicitBoundary
        && s.marker_based_boundary))
}

pub fn resume_withdraws_accounting(state: &RolloutScanState, parsed_offset: u64, size: u64) -> (r:
    bool)
    ensures
        r == spec_resume_withdraws_accounting(state@, parsed_offset, size),
{
    parsed_offset < size && (state.lineage_mode == LineageMode::Independent || state.lineage_mode
        == LineageMode::ParentResolved || (state.lineage_mode == LineageMode::ExplicitBoundary
        && state.marker_based_boundary))
}

/// A cursor is rebuilt whenever it cannot describe the file: another
/// parser wrote it, the file is another file, it shrank below the cursor,
/// or it changed in place at the same size. A cursor of the same parser
/// and file, at or below its size, with an unchanged time when the size is
/// unchanged and a known state that agrees with its deferral, is kept.
pub proof fn law_cursors_are_rebuilt_exactly_when_stale(
    cursor: FileCursor,
    identity: Seq<char>,
    size: u64,
    modified_ns: i64,
)
    ensures
        (cursor.parser_version != ROLLOUT_PARSER_VERSION || cursor.identity@ != identity || size
            < cursor.size || size < cursor.parsed_offset) ==> spec_cursor_requires_rebuild(
            cursor,
            identity,
            size,
            modified_ns,
        ),
        (cursor.parser_version == ROLLOUT_PARSER_VERSION && cursor.identity@ == identity && size
            >= cursor.size && size >= cursor.parsed_offset && (size == cursor.size ==> modified_ns
            == cursor.modified_ns) && cursor.completion_state != FileCompletionState::Unknown && (
        (cursor.completion_state == FileCompletionState::Deferred || cursor.completion_state
            == FileCompletionState::DeferredError) == (cursor.deferred_until_day is Some)))
            ==> !spec_cursor_requires_rebuild(cursor, identity, size, modified_ns),
{
}

/// A scan's completion state: a file is complete only when read to its end
/// without a parser error, and failed only when read to its end with one; a
/// deferred scan waits whatever its offset; a scan that stopped before the
/// end without waiting is still indexing (or discarding an overlong record).
/// Reads never take more than the budget left nor more than one byte past
/// the longest record.
pub proof fn law_completion_follows_the_scan(scan: FileScan, size: u64, remaining_bytes: u64)
    ensures
        spec_scan_completion(scan, size) == FileCompletionState::Complete ==> scan.parsed_offset
            == size && scan.parser_complete && scan.deferred_until_day is None,
        spec_scan_completion(scan, size) == FileCompletionState::Error ==> scan.parsed_offset == size
            && !scan.parser_complete && scan.deferred_until_day is None,
        scan.deferred_until_day is Some ==> (spec_scan_completion(scan, size)
            == FileCompletionState::Deferred || spec_scan_completion(scan, size)
            == FileCompletionState::DeferredError),
        scan.deferred_until_day is None && scan.parsed_offset < size ==> (spec_scan_completion(
            scan,
            size,
        ) == FileCompletionState::Indexing || spec_scan_completion(scan, size)
            == FileCompletionState::DiscardingOverlongLine),
        scan.deferred_until_day is None && scan.parsed_offset == size ==> (spec_scan_completion(
            scan,
            size,
        ) == if scan.parser_complete {
            FileCompletionState::Complete
        } else {
            FileCompletionState::Error
        }),
        spec_read_limit(remaining_bytes) <= remaining_bytes,
        spec_read_limit(remaining_bytes) <= MAX_ROLLOUT_LINE_BYTES + 1,
        spec_read_limit(remaining_bytes) == remaining_bytes || spec_read_limit(remaining_bytes)
            == MAX_ROLLOUT_LINE_BYTES + 1,
{
}

} // verus!
