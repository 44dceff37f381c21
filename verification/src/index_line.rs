//! Indexing one rollout record into model-day usage rows.
//!
//! A record arrives decoded: its header, and the body its record type
//! declares when that body matched the schema. The indexer advances the
//! rollout state, appends cumulative snapshots, and adds token deltas to
//! model-day rows, marking a day incomplete whenever a record in the
//! retention window cannot be counted.
use vstd::prelude::*;

use crate::cli::{
    candidate_chars, first_valid_model, spec_first_valid_model, spec_valid_model_name,
    string_opt_view, valid_model_name,
};
use crate::clock::{parse_rollout_timestamp, rfc3339_unix_nanos, utc_day_of_nanos, Timestamp};
use crate::rollout::{
    apply_inter_agent_boundary, apply_session_metadata, clone_opt_string,
    effective_record_ordinal, is_unowned_copied_prefix, record_precedes_parent_fork,
    spec_apply_inter_agent_boundary, spec_apply_session_metadata, spec_effective_record_ordinal,
    spec_is_unowned_copied_prefix, spec_record_precedes_parent_fork, LineageMode,
    InterAgentCommunication, RolloutScanState, RequiredWhenPresent, ScanStateView,
    SessionMeta,
};
use crate::files::PricingMode;
use crate::pricing::{model_has_fast_multiplier, spec_model_has_fast_multiplier, PricingCatalog};
use vstd::utf8::encode_utf8;
use crate::text::str_eq;
use crate::tokens::{
    checked_add_usage, cumulative_delta, spec_canonical_last, spec_checked_add_usage,
    spec_cumulative_delta, spec_delta_from, spec_subtract_parent_snapshot,
    spec_usage_is_at_or_below, subtract_parent_snapshot, usage_is_at_or_below, valid_usage,
    zero_usage, TokenUsage,
};

verus! {

/// The model a row is kept under when no valid model was observed.
pub const UNKNOWN_MODEL: &'static str = "__unknown__";

/// Token usage of one model on one UTC day, at one pricing tier.
#[derive(Debug)]
pub struct ModelDayRow {
    pub day: i32,
    pub model: String,
    /// Input tokens of the request, which select a long-context price.
    pub pricing_input_tokens: u64,
    pub pricing_mode: PricingMode,
    pub usage: TokenUsage,
    /// Whether every counted delta of the row had an observed model.
    pub complete: bool,
    /// Unix nanoseconds of the latest record the row reflects.
    pub observed_through: i128,
}

/// A model-day row with its model as characters.
pub struct RowView {
    pub day: i32,
    pub model: Seq<char>,
    pub pricing_input_tokens: u64,
    pub pricing_mode: PricingMode,
    pub usage: TokenUsage,
    pub complete: bool,
    pub observed_through: i128,
}

impl View for ModelDayRow {
    type V = RowView;

    open spec fn view(&self) -> RowView {
        RowView {
            day: self.day,
            model: self.model@,
            pricing_input_tokens: self.pricing_input_tokens,
            pricing_mode: self.pricing_mode,
            usage: self.usage,
            complete: self.complete,
            observed_through: self.observed_through,
        }
    }
}

pub open spec fn rows_view(rows: Seq<ModelDayRow>) -> Seq<RowView> {
    rows.map_values(|r: ModelDayRow| r@)
}

pub open spec fn max_nanos(a: i128, b: i128) -> i128 {
    if a >= b {
        a
    } else {
        b
    }
}

/// The model a row is filed under.
pub open spec fn row_model(model: Option<Seq<char>>) -> Seq<char> {
    match model {
        Some(m) => m,
        None => UNKNOWN_MODEL@,
    }
}

/// A row is keyed by its day, model, pricing input tokens and mode.
pub open spec fn row_has_key(
    r: RowView,
    day: i32,
    model: Seq<char>,
    pricing_input_tokens: u64,
    mode: PricingMode,
) -> bool {
    &&& r.day == day
    &&& r.model == model
    &&& r.pricing_input_tokens == pricing_input_tokens
    &&& r.pricing_mode == mode
}

/// The first row with the given key.
pub open spec fn find_row(
    rows: Seq<RowView>,
    day: i32,
    model: Seq<char>,
    pricing_input_tokens: u64,
    mode: PricingMode,
) -> Option<int>
    decreases rows.len(),
{
    if rows.len() == 0 {
        None
    } else {
        match find_row(rows.drop_last(), day, model, pricing_input_tokens, mode) {
            Some(i) => Some(i),
            None => if row_has_key(rows.last(), day, model, pricing_input_tokens, mode) {
                Some(rows.len() - 1)
            } else {
                None
            },
        }
    }
}

/// No two rows share a key.
pub open spec fn rows_keys_unique(rows: Seq<RowView>) -> bool {
    forall|i: int, j: int|
        0 <= i < rows.len() && 0 <= j < rows.len() && i != j ==> !row_has_key(
            rows[j],
            rows[i].day,
            rows[i].model,
            rows[i].pricing_input_tokens,
            rows[i].pricing_mode,
        )
}

/// The rows with the key present (`fresh` appended when it was absent), and
/// the index of the keyed row.
pub open spec fn upsert_row(
    rows: Seq<RowView>,
    day: i32,
    model: Seq<char>,
    pricing_input_tokens: u64,
    mode: PricingMode,
    fresh: RowView,
) -> (Seq<RowView>, int) {
    match find_row(rows, day, model, pricing_input_tokens, mode) {
        Some(i) => (rows, i),
        None => (rows.push(fresh), rows.len() as int),
    }
}

/// Marks the standard-price row of a record's day and model incomplete,
/// creating it when absent, and moves its observation time forward.
pub open spec fn spec_mark_model_day_incomplete(
    rows: Seq<RowView>,
    timestamp: Timestamp,
    model: Option<Seq<char>>,
) -> Seq<RowView> {
    let m = row_model(model);
    let fresh = RowView {
        day: timestamp.day,
        model: m,
        pricing_input_tokens: 0,
        pricing_mode: PricingMode::Standard,
        usage: zero_usage(),
        complete: false,
        observed_through: timestamp.unix_nanos,
    };
    let (r1, i) = upsert_row(rows, timestamp.day, m, 0, PricingMode::Standard, fresh);
    r1.update(
        i,
        RowView {
            complete: false,
            observed_through: max_nanos(r1[i].observed_through, timestamp.unix_nanos),
            ..r1[i]
        },
    )
}

/// Adds a token delta to its model-day row. A zero delta changes nothing.
/// The row is created before the addition, so it stays even when the
/// addition overflows.
pub open spec fn spec_add_model_day_delta(
    rows: Seq<RowView>,
    timestamp: Timestamp,
    model: Option<Seq<char>>,
    delta: TokenUsage,
    pricing_input_tokens: u64,
    mode: PricingMode,
) -> (Seq<RowView>, Result<(), ()>) {
    if delta.total == 0 {
        (rows, Ok(()))
    } else {
        let m = row_model(model);
        let fresh = RowView {
            day: timestamp.day,
            model: m,
            pricing_input_tokens,
            pricing_mode: mode,
            usage: zero_usage(),
            complete: model is Some,
            observed_through: timestamp.unix_nanos,
        };
        let (r1, i) = upsert_row(rows, timestamp.day, m, pricing_input_tokens, mode, fresh);
        match spec_checked_add_usage(r1[i].usage, delta) {
            Err(()) => (r1, Err(())),
            Ok(u) => (
                r1.update(
                    i,
                    RowView {
                        usage: u,
                        complete: r1[i].complete && model is Some,
                        observed_through: max_nanos(r1[i].observed_through, timestamp.unix_nanos),
                        ..r1[i]
                    },
                ),
                Ok(()),
            ),
        }
    }
}

/// A key found in a prefix is found at the same index in the whole.
proof fn lemma_find_row_prefix(
    rows: Seq<RowView>,
    n: int,
    day: i32,
    model: Seq<char>,
    pricing_input_tokens: u64,
    mode: PricingMode,
)
    requires
        0 <= n <= rows.len(),
        find_row(rows.take(n), day, model, pricing_input_tokens, mode) is Some,
    ensures
        find_row(rows, day, model, pricing_input_tokens, mode) == find_row(
            rows.take(n),
            day,
            model,
            pricing_input_tokens,
            mode,
        ),
    decreases rows.len() - n,
{
    if n < rows.len() {
        assert(rows.take(n + 1).drop_last() =~= rows.take(n));
        lemma_find_row_prefix(rows, n + 1, day, model, pricing_input_tokens, mode);
    } else {
        assert(rows.take(n) =~= rows);
    }
}

/// A found index holds the key.
proof fn lemma_find_row_found(
    rows: Seq<RowView>,
    day: i32,
    model: Seq<char>,
    pricing_input_tokens: u64,
    mode: PricingMode,
)
    ensures
        find_row(rows, day, model, pricing_input_tokens, mode) matches Some(i) ==> 0 <= i
            < rows.len() && row_has_key(rows[i], day, model, pricing_input_tokens, mode),
        find_row(rows, day, model, pricing_input_tokens, mode) is None ==> forall|j: int|
            0 <= j < rows.len() ==> !row_has_key(
                #[trigger] rows[j],
                day,
                model,
                pricing_input_tokens,
                mode,
            ),
    decreases rows.len(),
{
    if rows.len() > 0 {
        lemma_find_row_found(rows.drop_last(), day, model, pricing_input_tokens, mode);
        assert forall|j: int| 0 <= j < rows.len() - 1 implies #[trigger] rows[j] == rows.drop_last()[j] by {}
    }
}

/// The index of the first row with the given key.
fn find_row_index(
    rows: &Vec<ModelDayRow>,
    day: i32,
    model: &str,
    pricing_input_tokens: u64,
    mode: PricingMode,
) -> (r: Option<usize>)
    ensures
        r matches Some(i) ==> find_row(rows_view(rows@), day, model@, pricing_input_tokens, mode)
            == Some(i as int),
        r is None ==> find_row(rows_view(rows@), day, model@, pricing_input_tokens, mode) is None,
{
    let ghost all = rows_view(rows@);
    let mut i: usize = 0;
    while i < rows.len()
        invariant
            all == rows_view(rows@),
            i <= rows.len(),
            find_row(all.take(i as int), day, model@, pricing_input_tokens, mode) is None,
        decreases rows.len() - i,
    {
        assert(all.take(i + 1).drop_last() =~= all.take(i as int));
        assert(all.take(i + 1).last() == rows@[i as int]@);
        let r = &rows[i];
        if r.day == day && str_eq(r.model.as_str(), model) && r.pricing_input_tokens
            == pricing_input_tokens && r.pricing_mode == mode {
            proof {
                lemma_find_row_prefix(all, i + 1, day, model@, pricing_input_tokens, mode);
            }
            return Some(i);
        }
        i = i + 1;
    }
    assert(all.take(i as int) =~= all);
    None
}

/// The index of the keyed row, appending `fresh` when the key is absent.
fn upsert_row_index(
    rows: &mut Vec<ModelDayRow>,
    fresh: ModelDayRow,
) -> (r: usize)
    ensures
        (rows_view(final(rows)@), r as int) == upsert_row(
            rows_view(old(rows)@),
            fresh.day,
            fresh.model@,
            fresh.pricing_input_tokens,
            fresh.pricing_mode,
            fresh@,
        ),
        r < final(rows)@.len(),
{
    match find_row_index(rows, fresh.day, fresh.model.as_str(), fresh.pricing_input_tokens, fresh.pricing_mode) {
        Some(i) => {
            proof {
                lemma_find_row_found(rows_view(rows@), fresh.day, fresh.model@, fresh.pricing_input_tokens, fresh.pricing_mode);
            }
            i
        },
        None => {
            let n = rows.len();
            rows.push(fresh);
            assert(rows_view(rows@) =~= rows_view(old(rows)@).push(fresh@));
            n
        },
    }
}

pub open spec fn str_opt_view(value: Option<&str>) -> Option<Seq<char>> {
    match value {
        Some(v) => Some(v@),
        None => None,
    }
}

fn row_model_string(model: Option<&str>) -> (r: String)
    ensures
        r@ == row_model(str_opt_view(model)),
{
    match model {
        Some(m) => m.to_owned(),
        None => UNKNOWN_MODEL.to_owned(),
    }
}

/// Replaces the row at `i`, keeping its key.
fn replace_row(
    rows: &mut Vec<ModelDayRow>,
    i: usize,
    usage: TokenUsage,
    complete: bool,
    observed_through: i128,
)
    requires
        i < old(rows)@.len(),
    ensures
        rows_view(final(rows)@) == rows_view(old(rows)@).update(
            i as int,
            RowView { usage, complete, observed_through, ..rows_view(old(rows)@)[i as int] },
        ),
{
    let old_row = &rows[i];
    let updated = ModelDayRow {
        day: old_row.day,
        model: old_row.model.clone(),
        pricing_input_tokens: old_row.pricing_input_tokens,
        pricing_mode: old_row.pricing_mode,
        usage,
        complete,
        observed_through,
    };
    rows.set(i, updated);
    assert(rows_view(rows@) =~= rows_view(old(rows)@).update(
        i as int,
        RowView { usage, complete, observed_through, ..rows_view(old(rows)@)[i as int] },
    ));
}

/// Marks the standard-price row of a record's day and model incomplete.
pub fn mark_model_day_incomplete(
    rows: &mut Vec<ModelDayRow>,
    timestamp: Timestamp,
    model: Option<&str>,
)
    ensures
        rows_view(final(rows)@) == spec_mark_model_day_incomplete(
            rows_view(old(rows)@),
            timestamp,
            str_opt_view(model),
        ),
{
    let fresh = ModelDayRow {
        day: timestamp.day,
        model: row_model_string(model),
        pricing_input_tokens: 0,
        pricing_mode: PricingMode::Standard,
        usage: TokenUsage::zero(),
        complete: false,
        observed_through: timestamp.unix_nanos,
    };
    let i = upsert_row_index(rows, fresh);
    let previous = rows[i].observed_through;
    let usage = rows[i].usage;
    let through = if previous >= timestamp.unix_nanos {
        previous
    } else {
        timestamp.unix_nanos
    };
    replace_row(rows, i, usage, false, through);
}

/// Adds a token delta to its model-day row; a zero delta changes nothing.
/// Fails when a component of the row would overflow, in which case the row
/// exists but keeps its previous tokens.
pub fn add_model_day_delta(
    rows: &mut Vec<ModelDayRow>,
    timestamp: Timestamp,
    model: Option<&str>,
    delta: TokenUsage,
    pricing_input_tokens: u64,
    pricing_mode: PricingMode,
) -> (r: Result<(), ()>)
    ensures
        (rows_view(final(rows)@), r) == spec_add_model_day_delta(
            rows_view(old(rows)@),
            timestamp,
            str_opt_view(model),
            delta,
            pricing_input_tokens,
            pricing_mode,
        ),
{
    if delta.total == 0 {
        return Ok(());
    }
    let fresh = ModelDayRow {
        day: timestamp.day,
        model: row_model_string(model),
        pricing_input_tokens,
        pricing_mode,
        usage: TokenUsage::zero(),
        complete: model.is_some(),
        observed_through: timestamp.unix_nanos,
    };
    let i = upsert_row_index(rows, fresh);
    let current = rows[i].usage;
    let complete = rows[i].complete && model.is_some();
    let previous = rows[i].observed_through;
    let usage = match checked_add_usage(current, delta) {
        Ok(u) => u,
        Err(()) => return Err(()),
    };
    let through = if previous >= timestamp.unix_nanos {
        previous
    } else {
        timestamp.unix_nanos
    };
    replace_row(rows, i, usage, complete, through);
    Ok(())
}

/// The longest rollout record the indexer reads, in bytes.
pub const MAX_ROLLOUT_LINE_BYTES: usize = 4194304;

/// A turn identifier together with whether it passed the fast-pricing
/// identifier check.
#[derive(Debug)]
pub struct TurnId {
    pub value: String,
    pub valid: bool,
}

/// The `info` object of a `token_count` event.
#[derive(Debug)]
pub struct TokenInfo {
    pub last_token_usage: Option<TokenUsage>,
    pub total_token_usage: Option<TokenUsage>,
    pub turn_id: Option<TurnId>,
    pub id: Option<TurnId>,
    pub model: Option<String>,
    pub model_name: Option<String>,
}

/// The payload of an `event_msg` record.
#[derive(Debug)]
pub enum EventPayload {
    TaskStarted { turn_id: Option<TurnId> },
    TokenCount {
        info: Option<TokenInfo>,
        turn_id: Option<TurnId>,
        id: Option<TurnId>,
        model: Option<String>,
    },
    Other,
}

/// An `event_msg` record: its payload and the record-level model.
#[derive(Debug)]
pub struct EventLine {
    pub payload: EventPayload,
    pub model: Option<String>,
}

/// The fields every rollout record carries.
#[derive(Debug)]
pub struct RolloutHeader {
    pub ordinal: RequiredWhenPresent<u64>,
    pub timestamp: String,
    pub record_type: String,
}

/// The body of a record, decoded by the schema its record type declares;
/// `Undecoded` when the body did not match that schema (or the record type
/// has no body schema).
#[derive(Debug)]
pub enum RecordBody {
    SessionMeta { timestamp: String, payload: SessionMeta },
    InterAgent(InterAgentCommunication),
    TurnContext { model: String },
    Event(EventLine),
    Undecoded,
}

/// One rollout record: its size, its header when the header matched its
/// schema, and its body.
#[derive(Debug)]
pub struct DecodedLine {
    pub byte_len: usize,
    pub header: Option<RolloutHeader>,
    pub body: RecordBody,
}

/// Where a record stands: the retention window `cutoff..=today`, the
/// ordinal the record is expected to carry, and whether it opens the file.
#[derive(Clone, Copy, Debug)]
pub struct IndexLineContext {
    pub cutoff: i32,
    pub today: i32,
    pub record_ordinal: u64,
    pub line_starts_file: bool,
}

/// What became of a record: processed (cleanly or not), or deferred until
/// the UTC day it belongs to.
#[derive(Clone, Copy, Debug, PartialEq, Eq, Structural)]
pub enum IndexLineOutcome {
    Processed(bool),
    DeferredUntil(i32),
}

/// A cumulative counter observed inside the retention window.
#[derive(Clone, Copy, Debug, PartialEq, Eq, Structural)]
pub struct TokenSnapshot {
    pub record_ordinal: u64,
    pub timestamp_ns: i64,
    pub usage: TokenUsage,
}

/// What indexing a file produces.
#[derive(Debug)]
pub struct IndexedLineOutput {
    pub rows: Vec<ModelDayRow>,
    pub snapshots: Vec<TokenSnapshot>,
}

/// A turn proven fast, with the model it requested when it named one.
#[derive(Debug)]
pub struct FastTurn {
    pub turn_id: String,
    pub model: Option<String>,
}

/// A turn that indexed usage referred to on a day.
#[derive(Debug)]
pub struct TurnDay {
    pub turn_id: String,
    pub day: i32,
}

/// The fast-turn evidence the indexer reads, and the turn days it records
/// from `detail_cutoff` on.
#[derive(Debug)]
pub struct FastTurnIndex {
    pub turns: Vec<FastTurn>,
    pub referenced_turn_days: Vec<TurnDay>,
    pub detail_cutoff: i32,
}

pub open spec fn turns_view(turns: Seq<FastTurn>) -> Seq<(Seq<char>, Option<Seq<char>>)> {
    turns.map_values(|t: FastTurn| (t.turn_id@, string_opt_view(t.model)))
}

pub open spec fn turn_days_view(days: Seq<TurnDay>) -> Seq<(Seq<char>, i32)> {
    days.map_values(|t: TurnDay| (t.turn_id@, t.day))
}

/// The model of the first fast turn with the given identifier.
pub open spec fn find_fast_turn(turns: Seq<(Seq<char>, Option<Seq<char>>)>, turn_id: Seq<char>) -> Option<
    Option<Seq<char>>,
>
    decreases turns.len(),
{
    if turns.len() == 0 {
        None
    } else if turns[0].0 == turn_id {
        Some(turns[0].1)
    } else {
        find_fast_turn(turns.drop_first(), turn_id)
    }
}

/// Everything one record can change.
pub struct IndexWorld {
    pub state: ScanStateView,
    pub rows: Seq<RowView>,
    pub snapshots: Seq<TokenSnapshot>,
    pub referenced: Seq<(Seq<char>, i32)>,
}

pub open spec fn world_of(
    state: ScanStateView,
    output: IndexedLineOutput,
    fast: FastTurnIndex,
) -> IndexWorld {
    IndexWorld {
        state,
        rows: rows_view(output.rows@),
        snapshots: output.snapshots@,
        referenced: turn_days_view(fast.referenced_turn_days@),
    }
}

pub open spec fn mark_world(w: IndexWorld, timestamp: Timestamp, model: Option<Seq<char>>) -> IndexWorld {
    IndexWorld { rows: spec_mark_model_day_incomplete(w.rows, timestamp, model), ..w }
}

pub open spec fn mark_world_if(
    w: IndexWorld,
    cond: bool,
    timestamp: Timestamp,
    model: Option<Seq<char>>,
) -> IndexWorld {
    if cond {
        mark_world(w, timestamp, model)
    } else {
        w
    }
}

pub open spec fn with_state(w: IndexWorld, state: ScanStateView) -> IndexWorld {
    IndexWorld { state, ..w }
}

/// The instant and UTC day an RFC 3339 timestamp denotes.
pub open spec fn spec_rollout_timestamp(value: Seq<char>) -> Option<Timestamp> {
    match rfc3339_unix_nanos(value) {
        Some(n) => Some(Timestamp { unix_nanos: n as i128, day: utc_day_of_nanos(n) as i32 }),
        None => None,
    }
}

pub open spec fn turn_id_view(t: Option<TurnId>) -> Option<(Seq<char>, bool)> {
    match t {
        Some(t) => Some((t.value@, t.valid)),
        None => None,
    }
}

/// The turn a usage delta is priced under: the first identifier present
/// among the event's own, its `id`, the info's turn id and the info's
/// `id`, when that one is valid; otherwise the active task's turn.
pub open spec fn spec_pricing_turn_id(
    turn_id: Option<(Seq<char>, bool)>,
    id: Option<(Seq<char>, bool)>,
    info_turn_id: Option<(Seq<char>, bool)>,
    info_id: Option<(Seq<char>, bool)>,
    active: Option<Seq<char>>,
) -> Option<Seq<char>> {
    let first = if turn_id is Some {
        turn_id
    } else if id is Some {
        id
    } else if info_turn_id is Some {
        info_turn_id
    } else {
        info_id
    };
    match first {
        Some((value, valid)) if valid => Some(value),
        _ => active,
    }
}

/// How far the intake of a token count got.
pub enum TokenIntake {
    Done(bool),
    Ready {
        current: TokenUsage,
        raw_last: Option<TokenUsage>,
        timestamp_ns: i64,
        unowned: bool,
        snapshot_index: Option<int>,
        previous_active_model: Option<Seq<char>>,
        pricing_turn_id: Option<Seq<char>>,
    },
}

/// The state once a token count named its model: the first valid model
/// among the info's model, its model name, the payload's model and the
/// record's model becomes the active model.
pub open spec fn spec_intake_model(
    s: ScanStateView,
    info: TokenInfo,
    payload_model: Option<String>,
    root_model: Option<String>,
) -> ScanStateView {
    match spec_first_valid_model(
        seq![
            string_opt_view(info.model),
            string_opt_view(info.model_name),
            string_opt_view(payload_model),
            string_opt_view(root_model),
        ],
    ) {
        Some(m) => ScanStateView { active_model: Some(m), ..s },
        None => s,
    }
}

/// Recording a valid cumulative counter: the snapshot clock moves to it,
/// and inside the retention window it becomes a snapshot.
#[verifier::opaque]
pub open spec fn spec_record_counter(
    w1: IndexWorld,
    in_retention: bool,
    ordinal: u64,
    ns: i64,
    current: TokenUsage,
    raw_last: Option<TokenUsage>,
    unowned: bool,
    previous_active_model: Option<Seq<char>>,
    turn: Option<Seq<char>>,
) -> (IndexWorld, TokenIntake) {
    let s1 = w1.state;
    let s2 = ScanStateView {
        snapshot_timestamp_regressed: s1.snapshot_timestamp_regressed || (
        s1.snapshot_last_timestamp_ns matches Some(p) && ns < p),
        snapshot_last_timestamp_ns: Some(ns),
        ..s1
    };
    let snapshots = if in_retention {
        w1.snapshots.push(TokenSnapshot { record_ordinal: ordinal, timestamp_ns: ns, usage: current })
    } else {
        w1.snapshots
    };
    (
        IndexWorld { state: s2, snapshots, ..w1 },
        TokenIntake::Ready {
            current,
            raw_last,
            timestamp_ns: ns,
            unowned,
            snapshot_index: if in_retention {
                Some(w1.snapshots.len() as int)
            } else {
                None
            },
            previous_active_model,
            pricing_turn_id: turn,
        },
    )
}

/// A token count's cumulative counter must be present and valid; outside
/// a copied prefix, a missing or invalid one fails the record.
#[verifier::opaque]
pub open spec fn spec_counter_check(
    w1: IndexWorld,
    timestamp: Timestamp,
    in_retention: bool,
    ordinal: u64,
    ns: i64,
    total: Option<TokenUsage>,
    raw_last: Option<TokenUsage>,
    previous_active_model: Option<Seq<char>>,
    turn: Option<Seq<char>>,
) -> (IndexWorld, TokenIntake) {
    let s1 = w1.state;
    let unowned = spec_is_unowned_copied_prefix(s1, ordinal, Some(ns));
    let fail = mark_world_if(w1, in_retention && !s1.exclude_usage, timestamp, s1.active_model);
    match total {
        None => if raw_last is None || unowned {
            (w1, TokenIntake::Done(true))
        } else {
            (fail, TokenIntake::Done(false))
        },
        Some(current) => if !valid_usage(current) {
            if unowned {
                (w1, TokenIntake::Done(true))
            } else {
                (fail, TokenIntake::Done(false))
            }
        } else {
            spec_record_counter(
                w1,
                in_retention,
                ordinal,
                ns,
                current,
                raw_last,
                unowned,
                previous_active_model,
                turn,
            )
        },
    }
}

/// Checking a token count's cumulative counter: the rollout's schema must
/// be known and the record's instant must fit the snapshot clock.
pub open spec fn spec_counter_intake(
    w1: IndexWorld,
    timestamp: Timestamp,
    in_retention: bool,
    ordinal: u64,
    total: Option<TokenUsage>,
    raw_last: Option<TokenUsage>,
    previous_active_model: Option<Seq<char>>,
    turn: Option<Seq<char>>,
) -> (IndexWorld, TokenIntake) {
    let s1 = w1.state;
    if !s1.schema_supported {
        (mark_world_if(w1, in_retention, timestamp, s1.active_model), TokenIntake::Done(false))
    } else if !(i64::MIN <= timestamp.unix_nanos <= i64::MAX) {
        (with_state(w1, ScanStateView { parser_error_seen: true, ..s1 }), TokenIntake::Done(false))
    } else {
        spec_counter_check(
            w1,
            timestamp,
            in_retention,
            ordinal,
            timestamp.unix_nanos as i64,
            total,
            raw_last,
            previous_active_model,
            turn,
        )
    }
}

/// Reading a token count: the model it names, the turn it prices under,
/// and its cumulative counter.
pub open spec fn spec_token_count_intake(
    w: IndexWorld,
    timestamp: Timestamp,
    in_retention: bool,
    ordinal: u64,
    info: TokenInfo,
    turn_id: Option<TurnId>,
    id: Option<TurnId>,
    payload_model: Option<String>,
    root_model: Option<String>,
) -> (IndexWorld, TokenIntake) {
    let turn = spec_pricing_turn_id(
        turn_id_view(turn_id),
        turn_id_view(id),
        turn_id_view(info.turn_id),
        turn_id_view(info.id),
        w.state.active_turn_id,
    );
    spec_counter_intake(
        with_state(w, spec_intake_model(w.state, info, payload_model, root_model)),
        timestamp,
        in_retention,
        ordinal,
        info.total_token_usage,
        info.last_token_usage,
        w.state.active_model,
        turn,
    )
}

/// The last-request counter of a token count once normalized; `Err` when
/// it is present but inconsistent.
pub open spec fn spec_normalized_last(raw_last: Option<TokenUsage>) -> Result<Option<TokenUsage>, ()> {
    match raw_last {
        None => Ok(None),
        Some(l) => match spec_canonical_last(l) {
            Ok(c) => Ok(Some(c)),
            Err(()) => Err(()),
        },
    }
}

/// A marker-based boundary is confirmed locally by the first owned record
/// once its last-request usage is exactly the parent baseline's growth.
pub open spec fn spec_confirm_marker(
    s: ScanStateView,
    ordinal: u64,
    raw_current: TokenUsage,
    last: Option<TokenUsage>,
) -> ScanStateView {
    if s.lineage_mode == LineageMode::Discovering && s.marker_based_boundary
        && s.marker_local_confirmation is None && (s.history_start_ordinal matches Some(start)
        && ordinal >= start) {
        ScanStateView {
            marker_local_confirmation: Some(
                s.parent_baseline matches Some(baseline) && (last matches Some(l)
                    && spec_delta_from(raw_current, l) == Ok::<TokenUsage, ()>(baseline)),
            ),
            ..s
        }
    } else {
        s
    }
}

/// The counter a parent-resolved child owns: its cumulative counter less
/// the parent snapshot it forked from.
pub open spec fn spec_owned_counter(s: ScanStateView, raw_current: TokenUsage) -> Result<
    TokenUsage,
    (),
> {
    if s.lineage_mode == LineageMode::ParentResolved {
        match s.parent_baseline {
            Some(baseline) => spec_subtract_parent_snapshot(raw_current, baseline),
            None => if s.parent_dependency_key is Some {
                Ok(raw_current)
            } else {
                Err(())
            },
        }
    } else {
        Ok(raw_current)
    }
}

/// The previous counter a copied-prefix record leaves behind: none before
/// a parent's fork, else the record's own.
pub open spec fn prefix_previous(s: ScanStateView, ns: i64, counter: TokenUsage) -> Option<TokenUsage> {
    if spec_record_precedes_parent_fork(s, Some(ns)) {
        None
    } else {
        Some(counter)
    }
}

pub enum Resolved {
    Done(bool),
    Current { current: TokenUsage, last: Option<TokenUsage> },
}

/// Resolving the counter the rollout owns; records of a copied prefix only
/// move the previous counter.
#[verifier::opaque]
pub open spec fn spec_resolve_counter(
    w: IndexWorld,
    timestamp: Timestamp,
    in_retention: bool,
    ordinal: u64,
    ns: i64,
    raw_current: TokenUsage,
    raw_last: Option<TokenUsage>,
    unowned: bool,
) -> (IndexWorld, Resolved) {
    let s = w.state;
    match spec_normalized_last(raw_last) {
        Err(()) => if unowned {
            (
                with_state(w, ScanStateView { previous: prefix_previous(s, ns, raw_current), ..s }),
                Resolved::Done(true),
            )
        } else {
            (
                mark_world_if(w, in_retention && !s.exclude_usage, timestamp, s.active_model),
                Resolved::Done(false),
            )
        },
        Ok(last) => {
            let s3 = spec_confirm_marker(s, ordinal, raw_current, last);
            match spec_owned_counter(s3, raw_current) {
                Err(()) => (
                    with_state(w, ScanStateView { exclude_usage: true, ..s3 }),
                    Resolved::Done(false),
                ),
                Ok(current) => if unowned {
                    (
                        with_state(
                            w,
                            ScanStateView { previous: prefix_previous(s3, ns, current), ..s3 },
                        ),
                        Resolved::Done(true),
                    )
                } else {
                    (with_state(w, s3), Resolved::Current { current, last })
                },
            }
        },
    }
}

pub enum DeltaStep {
    Done(bool),
    Delta { delta: Result<TokenUsage, ()>, last: Option<TokenUsage> },
}

/// A root's counter restarted after a task started: the new counter equals
/// its last request and differs from the previous total.
pub open spec fn spec_task_counter_reset(
    s: ScanStateView,
    current: TokenUsage,
    last: Option<TokenUsage>,
) -> bool {
    s.lineage_mode == LineageMode::Root && s.task_counter_reset_pending && (s.previous matches Some(
        p,
    ) && current.total != p.total && last == Some(current))
}

/// Whether a counter below the previous one may restart the count.
pub open spec fn spec_allow_strong_reset(
    s: ScanStateView,
    ordinal: u64,
    current: TokenUsage,
    last: Option<TokenUsage>,
) -> bool {
    ||| spec_task_counter_reset(s, current, last)
    ||| s.lineage_mode == LineageMode::ParentResolved
    ||| (s.baseline_is_inherited == Some(true) && (s.history_start_ordinal matches Some(h) && h
        <= ordinal))
}

/// Without a previous counter, the counter itself is the delta when the
/// rollout's history provably starts here.
pub open spec fn spec_counts_from_zero(
    s: ScanStateView,
    ordinal: u64,
    current: TokenUsage,
    last: Option<TokenUsage>,
) -> bool {
    ||| (s.history_start_ordinal matches Some(h) && h <= ordinal) && last == Some(current)
    ||| s.lineage_mode == LineageMode::Independent && last == Some(current)
    ||| s.lineage_mode == LineageMode::ParentResolved
    ||| s.baseline_is_inherited == Some(false)
}

/// The delta over a previous counter `p`. A repeated last-only report at
/// or below it adds nothing and restores the model that preceded it.
#[verifier::opaque]
pub open spec fn spec_delta_over_previous(
    w4: IndexWorld,
    current: TokenUsage,
    last: Option<TokenUsage>,
    p: TokenUsage,
    reset: bool,
    allow: bool,
    snapshot_index: Option<int>,
    previous_active_model: Option<Seq<char>>,
) -> (IndexWorld, DeltaStep) {
    let s4 = w4.state;
    let keep = ScanStateView { previous: Some(current), ..s4 };
    if !allow && last == Some(current) && spec_usage_is_at_or_below(current, p) {
        let snapshots = match snapshot_index {
            Some(k) => w4.snapshots.update(k, TokenSnapshot { usage: p, ..w4.snapshots[k] }),
            None => w4.snapshots,
        };
        (
            IndexWorld {
                state: ScanStateView { active_model: previous_active_model, previous: Some(p), ..s4 },
                snapshots,
                ..w4
            },
            DeltaStep::Delta { delta: Ok(zero_usage()), last },
        )
    } else if reset {
        (
            with_state(w4, keep),
            DeltaStep::Delta { delta: spec_delta_from(current, zero_usage()), last },
        )
    } else {
        (
            with_state(w4, keep),
            DeltaStep::Delta { delta: spec_cumulative_delta(current, last, p, allow), last },
        )
    }
}

/// The delta of a first counter: the whole counter where the history
/// provably starts here; an inherited baseline is only remembered; any
/// other first counter fails the record.
#[verifier::opaque]
pub open spec fn spec_delta_from_start(
    w4: IndexWorld,
    timestamp: Timestamp,
    in_retention: bool,
    ordinal: u64,
    current: TokenUsage,
    last: Option<TokenUsage>,
) -> (IndexWorld, DeltaStep) {
    let s4 = w4.state;
    let keep = ScanStateView { previous: Some(current), ..s4 };
    if spec_counts_from_zero(s4, ordinal, current, last) {
        (
            with_state(w4, keep),
            DeltaStep::Delta { delta: spec_delta_from(current, zero_usage()), last },
        )
    } else if s4.baseline_is_inherited == Some(true) {
        (with_state(w4, keep), DeltaStep::Done(true))
    } else {
        (
            mark_world_if(with_state(w4, keep), in_retention, timestamp, s4.active_model),
            DeltaStep::Done(false),
        )
    }
}

/// The delta an owned counter adds; a pending task reset is consumed.
pub open spec fn spec_counter_delta(
    w: IndexWorld,
    timestamp: Timestamp,
    in_retention: bool,
    ordinal: u64,
    current: TokenUsage,
    last: Option<TokenUsage>,
    snapshot_index: Option<int>,
    previous_active_model: Option<Seq<char>>,
) -> (IndexWorld, DeltaStep) {
    let s3 = w.state;
    let w4 = with_state(w, ScanStateView { task_counter_reset_pending: false, ..s3 });
    match s3.previous {
        Some(p) => spec_delta_over_previous(
            w4,
            current,
            last,
            p,
            spec_task_counter_reset(s3, current, last),
            spec_allow_strong_reset(s3, ordinal, current, last),
            snapshot_index,
            previous_active_model,
        ),
        None => spec_delta_from_start(w4, timestamp, in_retention, ordinal, current, last),
    }
}

/// Whether a resolved delta is counted: only inside the retention window,
/// only for usage the rollout owns (an excluded rollout counts only as an
/// independent or parent-resolved counter, or after a confirmed-marker
/// boundary), and never before the rollout's own history starts.
pub open spec fn spec_usage_is_counted(s: ScanStateView, in_retention: bool, ordinal: u64) -> bool {
    &&& in_retention
    &&& !(s.exclude_usage && !(s.lineage_mode == LineageMode::Independent || s.lineage_mode
        == LineageMode::ParentResolved) && !(s.lineage_mode == LineageMode::Discovering
        && s.marker_based_boundary && (s.history_start_ordinal matches Some(start) && ordinal
        >= start)))
    &&& !(s.history_start_ordinal matches Some(h) && ordinal < h)
}

/// The turn days after a counted record referred to `turn` on `day`: the
/// pair is recorded once, from the detail cutoff on.
pub open spec fn spec_reference_turn(
    referenced: Seq<(Seq<char>, i32)>,
    turn: Option<Seq<char>>,
    day: i32,
    detail_cutoff: i32,
) -> Seq<(Seq<char>, i32)> {
    match turn {
        Some(t) => if day >= detail_cutoff && !referenced.contains((t, day)) {
            referenced.push((t, day))
        } else {
            referenced
        },
        None => referenced,
    }
}

/// Adding a counted delta to its model-day row. A proven fast turn prices
/// at the fast rate, under the model it requested when that model has a
/// fast price on the day, else under the active model.
#[verifier::opaque]
pub open spec fn spec_price_delta(
    w1: IndexWorld,
    timestamp: Timestamp,
    delta: TokenUsage,
    last: Option<TokenUsage>,
    turn: Option<Seq<char>>,
    turns: Seq<(Seq<char>, Option<Seq<char>>)>,
    catalog: Option<PricingCatalog>,
) -> (IndexWorld, bool) {
    let fast = match turn {
        Some(t) => find_fast_turn(turns, t),
        None => None,
    };
    let mode = if fast is Some {
        PricingMode::Fast
    } else {
        PricingMode::Standard
    };
    let model = match fast {
        Some(Some(m)) if spec_model_has_fast_multiplier(catalog, encode_utf8(m), timestamp.day) => Some(
            m,
        ),
        _ => w1.state.active_model,
    };
    let pricing_input_tokens = match last {
        Some(l) => l.input,
        None => delta.input,
    };
    let (rows, r) = spec_add_model_day_delta(
        w1.rows,
        timestamp,
        model,
        delta,
        pricing_input_tokens,
        mode,
    );
    match r {
        Ok(()) => (IndexWorld { rows, ..w1 }, true),
        Err(()) => (mark_world(IndexWorld { rows, ..w1 }, timestamp, w1.state.active_model), false),
    }
}

/// Counting a resolved delta.
pub open spec fn spec_count_delta(
    w: IndexWorld,
    timestamp: Timestamp,
    in_retention: bool,
    ordinal: u64,
    delta: Result<TokenUsage, ()>,
    last: Option<TokenUsage>,
    turn: Option<Seq<char>>,
    turns: Seq<(Seq<char>, Option<Seq<char>>)>,
    detail_cutoff: i32,
    catalog: Option<PricingCatalog>,
) -> (IndexWorld, bool) {
    if !spec_usage_is_counted(w.state, in_retention, ordinal) {
        (w, true)
    } else {
        let w1 = IndexWorld {
            referenced: spec_reference_turn(w.referenced, turn, timestamp.day, detail_cutoff),
            ..w
        };
        match delta {
            Err(()) => (mark_world(w1, timestamp, w.state.active_model), false),
            Ok(d) => spec_price_delta(w1, timestamp, d, last, turn, turns, catalog),
        }
    }
}

/// Indexing a `token_count` event with usage info.
pub open spec fn spec_token_count(
    w: IndexWorld,
    timestamp: Timestamp,
    in_retention: bool,
    ordinal: u64,
    info: TokenInfo,
    turn_id: Option<TurnId>,
    id: Option<TurnId>,
    payload_model: Option<String>,
    root_model: Option<String>,
    turns: Seq<(Seq<char>, Option<Seq<char>>)>,
    detail_cutoff: i32,
    catalog: Option<PricingCatalog>,
) -> (IndexWorld, bool) {
    let (w1, intake) = spec_token_count_intake(
        w,
        timestamp,
        in_retention,
        ordinal,
        info,
        turn_id,
        id,
        payload_model,
        root_model,
    );
    match intake {
        TokenIntake::Done(b) => (w1, b),
        TokenIntake::Ready {
            current,
            raw_last,
            timestamp_ns,
            unowned,
            snapshot_index,
            previous_active_model,
            pricing_turn_id,
        } => {
            let (w2, resolved) = spec_resolve_counter(
                w1,
                timestamp,
                in_retention,
                ordinal,
                timestamp_ns,
                current,
                raw_last,
                unowned,
            );
            match resolved {
                Resolved::Done(b) => (w2, b),
                Resolved::Current { current, last } => {
                    let (w3, step) = spec_counter_delta(
                        w2,
                        timestamp,
                        in_retention,
                        ordinal,
                        current,
                        last,
                        snapshot_index,
                        previous_active_model,
                    );
                    match step {
                        DeltaStep::Done(b) => (w3, b),
                        DeltaStep::Delta { delta, last } => spec_count_delta(
                            w3,
                            timestamp,
                            in_retention,
                            ordinal,
                            delta,
                            last,
                            pricing_turn_id,
                            turns,
                            detail_cutoff,
                            catalog,
                        ),
                    }
                },
            }
        },
    }
}

/// Indexing an `event_msg` record: a task start opens a turn (and, on a
/// root, arms a counter reset); a token count with usage info is counted;
/// every other event is accepted as is.
pub open spec fn spec_index_event(
    w: IndexWorld,
    timestamp: Timestamp,
    in_retention: bool,
    ordinal: u64,
    event: EventLine,
    turns: Seq<(Seq<char>, Option<Seq<char>>)>,
    detail_cutoff: i32,
    catalog: Option<PricingCatalog>,
) -> (IndexWorld, bool) {
    match event.payload {
        EventPayload::TaskStarted { turn_id } => (
            with_state(
                w,
                ScanStateView {
                    active_turn_id: match turn_id {
                        Some(t) if t.valid => Some(t.value@),
                        _ => None,
                    },
                    task_counter_reset_pending: w.state.lineage_mode == LineageMode::Root,
                    ..w.state
                },
            ),
            true,
        ),
        EventPayload::TokenCount { info: Some(info), turn_id, id, model } => spec_token_count(
            w,
            timestamp,
            in_retention,
            ordinal,
            info,
            turn_id,
            id,
            model,
            event.model,
            turns,
            detail_cutoff,
            catalog,
        ),
        _ => (w, true),
    }
}

/// Indexing a `turn_context` record: a valid model becomes the active
/// model; an invalid one clears it and, inside the retention window, fails
/// the record.
pub open spec fn spec_turn_context(
    w: IndexWorld,
    timestamp: Timestamp,
    in_retention: bool,
    ordinal: u64,
    model: Seq<char>,
) -> (IndexWorld, bool) {
    let active = if spec_valid_model_name(model) {
        Some(model)
    } else {
        None
    };
    let s2 = ScanStateView { active_model: active, ..w.state };
    if in_retention && active is None {
        (mark_world(with_state(w, s2), timestamp, None), false)
    } else if active is Some {
        (
            with_state(
                w,
                ScanStateView {
                    last_turn_context_is_first: s2.last_turn_context_ordinal is None,
                    last_turn_context_ordinal: Some(ordinal),
                    ..s2
                },
            ),
            true,
        )
    } else {
        (with_state(w, ScanStateView { last_turn_context_is_first: false, ..s2 }), true)
    }
}

/// Indexing a record by its type; a body that did not match its type's
/// schema fails the record (and, inside the retention window, its day).
/// Records of other types are accepted as is.
pub open spec fn spec_index_record(
    w: IndexWorld,
    timestamp: Timestamp,
    in_retention: bool,
    ordinal: u64,
    record_type: Seq<char>,
    body: RecordBody,
    turns: Seq<(Seq<char>, Option<Seq<char>>)>,
    detail_cutoff: i32,
    catalog: Option<PricingCatalog>,
) -> (IndexWorld, bool) {
    let s = w.state;
    let fail = mark_world_if(w, in_retention, timestamp, s.active_model);
    if record_type == "session_meta"@ {
        match body {
            RecordBody::SessionMeta { timestamp: line_timestamp, payload } => {
                let (s2, ok) = spec_apply_session_metadata(s, payload, line_timestamp@);
                (
                    mark_world_if(with_state(w, s2), !ok && in_retention, timestamp, s2.active_model),
                    s2.schema_supported || s2.exclude_usage,
                )
            },
            _ => (fail, false),
        }
    } else if record_type == "inter_agent_communication_metadata"@ {
        match body {
            RecordBody::InterAgent(m) => (
                with_state(w, spec_apply_inter_agent_boundary(s, ordinal, m)),
                true,
            ),
            _ => (
                mark_world_if(w, in_retention && !s.exclude_usage, timestamp, s.active_model),
                false,
            ),
        }
    } else if record_type == "turn_context"@ {
        match body {
            RecordBody::TurnContext { model } => spec_turn_context(
                w,
                timestamp,
                in_retention,
                ordinal,
                model@,
            ),
            _ => (fail, false),
        }
    } else if record_type == "event_msg"@ {
        match body {
            RecordBody::Event(event) => spec_index_event(
                w,
                timestamp,
                in_retention,
                ordinal,
                event,
                turns,
                detail_cutoff,
                catalog,
            ),
            _ => (fail, false),
        }
    } else {
        (w, true)
    }
}

/// The session metadata a record carries, when its body is one.
pub open spec fn body_session_meta(body: RecordBody) -> Option<SessionMeta> {
    match body {
        RecordBody::SessionMeta { payload, .. } => Some(payload),
        _ => None,
    }
}

/// Indexing one rollout record. An oversized record, a header that does not
/// match its schema, an unexpected ordinal or an unreadable timestamp fail
/// the record; a record of a future UTC day is deferred to that day; any
/// other record is indexed by its type, with its day inside the retention
/// window or not.
pub open spec fn spec_process_index_line(
    line: DecodedLine,
    context: IndexLineContext,
    w: IndexWorld,
    turns: Seq<(Seq<char>, Option<Seq<char>>)>,
    detail_cutoff: i32,
    catalog: Option<PricingCatalog>,
) -> (IndexWorld, IndexLineOutcome) {
    if line.byte_len > MAX_ROLLOUT_LINE_BYTES {
        (w, IndexLineOutcome::Processed(false))
    } else {
        match line.header {
            None => (w, IndexLineOutcome::Processed(false)),
            Some(header) => {
                let (ordinal, mode) = spec_effective_record_ordinal(
                    context.record_ordinal,
                    header.ordinal,
                    context.line_starts_file,
                    header.record_type@,
                    body_session_meta(line.body),
                    w.state.provider_ordinal_mode,
                );
                let w0 = with_state(w, ScanStateView { provider_ordinal_mode: mode, ..w.state });
                match ordinal {
                    Err(()) => (w0, IndexLineOutcome::Processed(false)),
                    Ok(o) => spec_index_dated_record(
                        with_state(w0, ScanStateView { record_ordinal: o, ..w0.state }),
                        context,
                        o,
                        header.timestamp@,
                        header.record_type@,
                        line.body,
                        turns,
                        detail_cutoff,
                        catalog,
                    ),
                }
            },
        }
    }
}

/// A record at its ordinal: an unreadable timestamp fails it, a future
/// UTC day defers it, and any other record is indexed by its type.
#[verifier::opaque]
pub open spec fn spec_index_dated_record(
    w1: IndexWorld,
    context: IndexLineContext,
    ordinal: u64,
    timestamp: Seq<char>,
    record_type: Seq<char>,
    body: RecordBody,
    turns: Seq<(Seq<char>, Option<Seq<char>>)>,
    detail_cutoff: i32,
    catalog: Option<PricingCatalog>,
) -> (IndexWorld, IndexLineOutcome) {
    match spec_rollout_timestamp(timestamp) {
        None => (w1, IndexLineOutcome::Processed(false)),
        Some(t) => if t.day > context.today {
            (w1, IndexLineOutcome::DeferredUntil(t.day))
        } else {
            let (w2, processed) = spec_index_record(
                w1,
                t,
                t.day >= context.cutoff && t.day <= context.today,
                ordinal,
                record_type,
                body,
                turns,
                detail_cutoff,
                catalog,
            );
            (w2, IndexLineOutcome::Processed(processed))
        },
    }
}

fn opt_as_str(value: &Option<String>) -> (r: Option<&str>)
    ensures
        str_opt_view(r) == string_opt_view(*value),
{
    match value {
        Some(v) => Some(v.as_str()),
        None => None,
    }
}

fn clone_turn_value(t: &Option<TurnId>) -> (r: Option<(String, bool)>)
    ensures
        match r {
            Some((v, b)) => turn_id_view(*t) == Some((v@, b)),
            None => turn_id_view(*t) is None,
        },
{
    match t {
        Some(t) => Some((t.value.clone(), t.valid)),
        None => None,
    }
}

fn pricing_turn_id(
    turn_id: &Option<TurnId>,
    id: &Option<TurnId>,
    info_turn_id: &Option<TurnId>,
    info_id: &Option<TurnId>,
    active: &Option<String>,
) -> (r: Option<String>)
    ensures
        string_opt_view(r) == spec_pricing_turn_id(
            turn_id_view(*turn_id),
            turn_id_view(*id),
            turn_id_view(*info_turn_id),
            turn_id_view(*info_id),
            string_opt_view(*active),
        ),
{
    let first = if turn_id.is_some() {
        clone_turn_value(turn_id)
    } else if id.is_some() {
        clone_turn_value(id)
    } else if info_turn_id.is_some() {
        clone_turn_value(info_turn_id)
    } else {
        clone_turn_value(info_id)
    };
    match first {
        Some((value, valid)) if valid => Some(value),
        _ => match active {
            Some(a) => Some(a.clone()),
            None => None,
        },
    }
}

/// A token count that passed intake.
struct ReadyCount {
    current: TokenUsage,
    raw_last: Option<TokenUsage>,
    timestamp_ns: i64,
    unowned: bool,
    snapshot_index: Option<usize>,
    previous_active_model: Option<String>,
    pricing_turn_id: Option<String>,
}

enum Intake {
    Done(bool),
    Ready(ReadyCount),
}

spec fn intake_view(r: Intake) -> TokenIntake {
    match r {
        Intake::Done(b) => TokenIntake::Done(b),
        Intake::Ready(c) => TokenIntake::Ready {
            current: c.current,
            raw_last: c.raw_last,
            timestamp_ns: c.timestamp_ns,
            unowned: c.unowned,
            snapshot_index: match c.snapshot_index {
                Some(i) => Some(i as int),
                None => None,
            },
            previous_active_model: string_opt_view(c.previous_active_model),
            pricing_turn_id: string_opt_view(c.pricing_turn_id),
        },
    }
}

fn intake_model(
    state: &mut RolloutScanState,
    info: &TokenInfo,
    payload_model: &Option<String>,
    root_model: &Option<String>,
)
    ensures
        final(state)@ == spec_intake_model(old(state)@, *info, *payload_model, *root_model),
{
    let candidates = [
        opt_as_str(&info.model),
        opt_as_str(&info.model_name),
        opt_as_str(payload_model),
        opt_as_str(root_model),
    ];
    let found = first_valid_model(&candidates);
    proof {
        assert(candidate_chars(candidates@) =~= seq![
            string_opt_view(info.model),
            string_opt_view(info.model_name),
            string_opt_view(*payload_model),
            string_opt_view(*root_model),
        ]);
    }
    match found {
        Some(m) => {
            state.active_model = Some(m);
        },
        None => {},
    }
}

#[verifier::rlimit(100)]
#[verifier::spinoff_prover]
fn record_counter(
    state: &mut RolloutScanState,
    output: &mut IndexedLineOutput,
    fast: &FastTurnIndex,
    in_retention: bool,
    ordinal: u64,
    ns: i64,
    current: TokenUsage,
    raw_last: Option<TokenUsage>,
    unowned: bool,
    previous_active_model: Option<String>,
    turn: Option<String>,
) -> (r: Intake)
    ensures
        (world_of(final(state)@, *final(output), *fast), intake_view(r)) == spec_record_counter(
            world_of(old(state)@, *old(output), *fast),
            in_retention,
            ordinal,
            ns,
            current,
            raw_last,
            unowned,
            string_opt_view(previous_active_model),
            string_opt_view(turn),
        ),
        r matches Intake::Ready(c) ==> (c.snapshot_index matches Some(i) ==> i
            < final(output).snapshots@.len()),
{
    proof {
        reveal(spec_record_counter);
    }
    let regressed = match state.snapshot_last_timestamp_ns {
        Some(previous) => ns < previous,
        None => false,
    };
    if regressed {
        state.snapshot_timestamp_regressed = true;
    }
    state.snapshot_last_timestamp_ns = Some(ns);
    let snapshot_index = if in_retention {
        let n = output.snapshots.len();
        output.snapshots.push(TokenSnapshot { record_ordinal: ordinal, timestamp_ns: ns, usage: current });
        Some(n)
    } else {
        None
    };
    Intake::Ready(
        ReadyCount {
            current,
            raw_last,
            timestamp_ns: ns,
            unowned,
            snapshot_index,
            previous_active_model,
            pricing_turn_id: turn,
        },
    )
}

fn counter_check(
    state: &mut RolloutScanState,
    output: &mut IndexedLineOutput,
    fast: &FastTurnIndex,
    timestamp: Timestamp,
    in_retention: bool,
    ordinal: u64,
    ns: i64,
    total: Option<TokenUsage>,
    raw_last: Option<TokenUsage>,
    previous_active_model: Option<String>,
    turn: Option<String>,
) -> (r: Intake)
    ensures
        (world_of(final(state)@, *final(output), *fast), intake_view(r)) == spec_counter_check(
            world_of(old(state)@, *old(output), *fast),
            timestamp,
            in_retention,
            ordinal,
            ns,
            total,
            raw_last,
            string_opt_view(previous_active_model),
            string_opt_view(turn),
        ),
        r matches Intake::Ready(c) ==> (c.snapshot_index matches Some(i) ==> i
            < final(output).snapshots@.len()),
{
    proof {
        reveal(spec_counter_check);
    }
    let unowned = is_unowned_copied_prefix(state, ordinal, Some(ns));
    let current = match total {
        None => {
            if raw_last.is_none() || unowned {
                return Intake::Done(true);
            }
            if in_retention && !state.exclude_usage {
                mark_model_day_incomplete(&mut output.rows, timestamp, opt_as_str(&state.active_model));
            }
            return Intake::Done(false);
        },
        Some(c) => c,
    };
    if current.validate().is_err() {
        if unowned {
            return Intake::Done(true);
        }
        if in_retention && !state.exclude_usage {
            mark_model_day_incomplete(&mut output.rows, timestamp, opt_as_str(&state.active_model));
        }
        return Intake::Done(false);
    }
    record_counter(
        state,
        output,
        fast,
        in_retention,
        ordinal,
        ns,
        current,
        raw_last,
        unowned,
        previous_active_model,
        turn,
    )
}

fn counter_intake(
    state: &mut RolloutScanState,
    output: &mut IndexedLineOutput,
    fast: &FastTurnIndex,
    timestamp: Timestamp,
    in_retention: bool,
    ordinal: u64,
    total: Option<TokenUsage>,
    raw_last: Option<TokenUsage>,
    previous_active_model: Option<String>,
    turn: Option<String>,
) -> (r: Intake)
    ensures
        (world_of(final(state)@, *final(output), *fast), intake_view(r)) == spec_counter_intake(
            world_of(old(state)@, *old(output), *fast),
            timestamp,
            in_retention,
            ordinal,
            total,
            raw_last,
            string_opt_view(previous_active_model),
            string_opt_view(turn),
        ),
        r matches Intake::Ready(c) ==> (c.snapshot_index matches Some(i) ==> i
            < final(output).snapshots@.len()),
{
    if !state.schema_supported {
        if in_retention {
            mark_model_day_incomplete(&mut output.rows, timestamp, opt_as_str(&state.active_model));
        }
        return Intake::Done(false);
    }
    if timestamp.unix_nanos < i64::MIN as i128 || timestamp.unix_nanos > i64::MAX as i128 {
        state.parser_error_seen = true;
        return Intake::Done(false);
    }
    counter_check(
        state,
        output,
        fast,
        timestamp,
        in_retention,
        ordinal,
        timestamp.unix_nanos as i64,
        total,
        raw_last,
        previous_active_model,
        turn,
    )
}

fn token_count_intake(
    state: &mut RolloutScanState,
    output: &mut IndexedLineOutput,
    fast: &FastTurnIndex,
    timestamp: Timestamp,
    in_retention: bool,
    ordinal: u64,
    info: &TokenInfo,
    turn_id: &Option<TurnId>,
    id: &Option<TurnId>,
    payload_model: &Option<String>,
    root_model: &Option<String>,
) -> (r: Intake)
    ensures
        (world_of(final(state)@, *final(output), *fast), intake_view(r))
            == spec_token_count_intake(
            world_of(old(state)@, *old(output), *fast),
            timestamp,
            in_retention,
            ordinal,
            *info,
            *turn_id,
            *id,
            *payload_model,
            *root_model,
        ),
        r matches Intake::Ready(c) ==> (c.snapshot_index matches Some(i) ==> i
            < final(output).snapshots@.len()),
{
    let previous_active_model = clone_opt_string(&state.active_model);
    let turn = pricing_turn_id(turn_id, id, &info.turn_id, &info.id, &state.active_turn_id);
    intake_model(state, info, payload_model, root_model);
    counter_intake(
        state,
        output,
        fast,
        timestamp,
        in_retention,
        ordinal,
        info.total_token_usage,
        info.last_token_usage,
        previous_active_model,
        turn,
    )
}

enum ResolvedCount {
    Done(bool),
    Current { current: TokenUsage, last: Option<TokenUsage> },
}

spec fn resolved_view(r: ResolvedCount) -> Resolved {
    match r {
        ResolvedCount::Done(b) => Resolved::Done(b),
        ResolvedCount::Current { current, last } => Resolved::Current { current, last },
    }
}

fn normalized_last(raw_last: Option<TokenUsage>) -> (r: Result<Option<TokenUsage>, ()>)
    ensures
        r == spec_normalized_last(raw_last),
{
    match raw_last {
        None => Ok(None),
        Some(l) => match l.canonical_last() {
            Ok(c) => Ok(Some(c)),
            Err(()) => Err(()),
        },
    }
}

fn confirm_marker(
    state: &mut RolloutScanState,
    ordinal: u64,
    raw_current: TokenUsage,
    last: Option<TokenUsage>,
)
    ensures
        final(state)@ == spec_confirm_marker(old(state)@, ordinal, raw_current, last),
{
    let after_start = match state.history_start_ordinal {
        Some(start) => ordinal >= start,
        None => false,
    };
    if state.lineage_mode == LineageMode::Discovering && state.marker_based_boundary
        && state.marker_local_confirmation.is_none() && after_start {
        let confirmed = match (state.parent_baseline, last) {
            (Some(baseline), Some(l)) => match raw_current.delta_from(l) {
                Ok(d) => d == baseline,
                Err(()) => false,
            },
            _ => false,
        };
        state.marker_local_confirmation = Some(confirmed);
    }
}

fn owned_counter(state: &RolloutScanState, raw_current: TokenUsage) -> (r: Result<TokenUsage, ()>)
    ensures
        r == spec_owned_counter(state@, raw_current),
{
    if state.lineage_mode == LineageMode::ParentResolved {
        match state.parent_baseline {
            Some(baseline) => subtract_parent_snapshot(raw_current, baseline),
            None => if state.parent_dependency_key.is_some() {
                Ok(raw_current)
            } else {
                Err(())
            },
        }
    } else {
        Ok(raw_current)
    }
}

fn set_prefix_previous(state: &mut RolloutScanState, ns: i64, counter: TokenUsage)
    ensures
        final(state)@ == (ScanStateView {
            previous: prefix_previous(old(state)@, ns, counter),
            ..old(state)@
        }),
{
    if record_precedes_parent_fork(state, Some(ns)) {
        state.previous = None;
    } else {
        state.previous = Some(counter);
    }
}

#[verifier::rlimit(100)]
#[verifier::spinoff_prover]
fn resolve_counter(
    state: &mut RolloutScanState,
    output: &mut IndexedLineOutput,
    fast: &FastTurnIndex,
    timestamp: Timestamp,
    in_retention: bool,
    ordinal: u64,
    ns: i64,
    raw_current: TokenUsage,
    raw_last: Option<TokenUsage>,
    unowned: bool,
) -> (r: ResolvedCount)
    ensures
        (world_of(final(state)@, *final(output), *fast), resolved_view(r)) == spec_resolve_counter(
            world_of(old(state)@, *old(output), *fast),
            timestamp,
            in_retention,
            ordinal,
            ns,
            raw_current,
            raw_last,
            unowned,
        ),
        final(output).snapshots@ == old(output).snapshots@,
{
    proof {
        reveal(spec_resolve_counter);
    }
    let last = match normalized_last(raw_last) {
        Ok(last) => last,
        Err(()) => {
            if unowned {
                set_prefix_previous(state, ns, raw_current);
                return ResolvedCount::Done(true);
            }
            if in_retention && !state.exclude_usage {
                mark_model_day_incomplete(&mut output.rows, timestamp, opt_as_str(&state.active_model));
            }
            return ResolvedCount::Done(false);
        },
    };
    confirm_marker(state, ordinal, raw_current, last);
    let current = match owned_counter(state, raw_current) {
        Ok(c) => c,
        Err(()) => {
            state.exclude_usage = true;
            return ResolvedCount::Done(false);
        },
    };
    if unowned {
        set_prefix_previous(state, ns, current);
        return ResolvedCount::Done(true);
    }
    ResolvedCount::Current { current, last }
}

enum CountedDelta {
    Done(bool),
    Delta { delta: Result<TokenUsage, ()>, last: Option<TokenUsage> },
}

spec fn delta_view(r: CountedDelta) -> DeltaStep {
    match r {
        CountedDelta::Done(b) => DeltaStep::Done(b),
        CountedDelta::Delta { delta, last } => DeltaStep::Delta { delta, last },
    }
}

fn opt_usage_eq(a: Option<TokenUsage>, b: TokenUsage) -> (r: bool)
    ensures
        r == (a == Some(b)),
{
    match a {
        Some(x) => x == b,
        None => false,
    }
}

#[verifier::rlimit(100)]
#[verifier::spinoff_prover]
fn delta_over_previous(
    state: &mut RolloutScanState,
    output: &mut IndexedLineOutput,
    fast: &FastTurnIndex,
    current: TokenUsage,
    last: Option<TokenUsage>,
    p: TokenUsage,
    reset: bool,
    allow: bool,
    snapshot_index: Option<usize>,
    previous_active_model: Option<String>,
) -> (r: CountedDelta)
    requires
        snapshot_index matches Some(k) ==> k < old(output).snapshots@.len(),
    ensures
        (world_of(final(state)@, *final(output), *fast), delta_view(r)) == spec_delta_over_previous(
            world_of(old(state)@, *old(output), *fast),
            current,
            last,
            p,
            reset,
            allow,
            match snapshot_index {
                Some(k) => Some(k as int),
                None => None,
            },
            string_opt_view(previous_active_model),
        ),
{
    proof {
        reveal(spec_delta_over_previous);
    }
    if !allow && opt_usage_eq(last, current) && usage_is_at_or_below(current, p) {
        state.active_model = previous_active_model;
        state.previous = Some(p);
        match snapshot_index {
            Some(k) => {
                let old_snapshot = output.snapshots[k];
                output.snapshots.set(k, TokenSnapshot { usage: p, ..old_snapshot });
            },
            None => {},
        }
        return CountedDelta::Delta { delta: Ok(TokenUsage::zero()), last };
    }
    state.previous = Some(current);
    if reset {
        CountedDelta::Delta { delta: current.delta_from(TokenUsage::zero()), last }
    } else {
        CountedDelta::Delta { delta: cumulative_delta(current, last, p, allow), last }
    }
}

#[verifier::rlimit(100)]
#[verifier::spinoff_prover]
fn delta_from_start(
    state: &mut RolloutScanState,
    output: &mut IndexedLineOutput,
    fast: &FastTurnIndex,
    timestamp: Timestamp,
    in_retention: bool,
    ordinal: u64,
    current: TokenUsage,
    last: Option<TokenUsage>,
) -> (r: CountedDelta)
    ensures
        (world_of(final(state)@, *final(output), *fast), delta_view(r)) == spec_delta_from_start(
            world_of(old(state)@, *old(output), *fast),
            timestamp,
            in_retention,
            ordinal,
            current,
            last,
        ),
{
    proof {
        reveal(spec_delta_from_start);
    }
    let last_is_current = opt_usage_eq(last, current);
    let from_history = match state.history_start_ordinal {
        Some(h) => h <= ordinal,
        None => false,
    };
    state.previous = Some(current);
    if (from_history && last_is_current) || (state.lineage_mode == LineageMode::Independent
        && last_is_current) || state.lineage_mode == LineageMode::ParentResolved
        || state.baseline_is_inherited == Some(false) {
        CountedDelta::Delta { delta: current.delta_from(TokenUsage::zero()), last }
    } else if state.baseline_is_inherited == Some(true) {
        CountedDelta::Done(true)
    } else {
        if in_retention {
            mark_model_day_incomplete(&mut output.rows, timestamp, opt_as_str(&state.active_model));
        }
        CountedDelta::Done(false)
    }
}

fn task_counter_reset(state: &RolloutScanState, current: TokenUsage, last: Option<TokenUsage>) -> (r:
    bool)
    ensures
        r == spec_task_counter_reset(state@, current, last),
{
    state.lineage_mode == LineageMode::Root && state.task_counter_reset_pending
        && match state.previous {
        Some(p) => current.total != p.total && opt_usage_eq(last, current),
        None => false,
    }
}

fn allow_strong_reset(
    state: &RolloutScanState,
    ordinal: u64,
    current: TokenUsage,
    last: Option<TokenUsage>,
) -> (r: bool)
    ensures
        r == spec_allow_strong_reset(state@, ordinal, current, last),
{
    let from_history = match state.history_start_ordinal {
        Some(h) => h <= ordinal,
        None => false,
    };
    task_counter_reset(state, current, last) || state.lineage_mode == LineageMode::ParentResolved
        || (state.baseline_is_inherited == Some(true) && from_history)
}

#[verifier::rlimit(50)]
fn counter_delta(
    state: &mut RolloutScanState,
    output: &mut IndexedLineOutput,
    fast: &FastTurnIndex,
    timestamp: Timestamp,
    in_retention: bool,
    ordinal: u64,
    current: TokenUsage,
    last: Option<TokenUsage>,
    snapshot_index: Option<usize>,
    previous_active_model: Option<String>,
) -> (r: CountedDelta)
    requires
        snapshot_index matches Some(k) ==> k < old(output).snapshots@.len(),
    ensures
        (world_of(final(state)@, *final(output), *fast), delta_view(r)) == spec_counter_delta(
            world_of(old(state)@, *old(output), *fast),
            timestamp,
            in_retention,
            ordinal,
            current,
            last,
            match snapshot_index {
                Some(k) => Some(k as int),
                None => None,
            },
            string_opt_view(previous_active_model),
        ),
{
    let reset = task_counter_reset(state, current, last);
    let allow = allow_strong_reset(state, ordinal, current, last);
    let previous = state.previous;
    state.task_counter_reset_pending = false;
    match previous {
        Some(p) => delta_over_previous(
            state,
            output,
            fast,
            current,
            last,
            p,
            reset,
            allow,
            snapshot_index,
            previous_active_model,
        ),
        None => delta_from_start(state, output, fast, timestamp, in_retention, ordinal, current, last),
    }
}

fn usage_is_counted(state: &RolloutScanState, in_retention: bool, ordinal: u64) -> (r: bool)
    ensures
        r == spec_usage_is_counted(state@, in_retention, ordinal),
{
    let after_start = match state.history_start_ordinal {
        Some(start) => ordinal >= start,
        None => false,
    };
    let before_start = match state.history_start_ordinal {
        Some(start) => ordinal < start,
        None => false,
    };
    let owned_lineage = state.lineage_mode == LineageMode::Independent || state.lineage_mode
        == LineageMode::ParentResolved;
    let confirmed_marker = state.lineage_mode == LineageMode::Discovering
        && state.marker_based_boundary && after_start;
    in_retention && !(state.exclude_usage && !owned_lineage && !confirmed_marker) && !before_start
}

/// Records that a counted record referred to `turn` on `day`.
fn reference_turn(fast: &mut FastTurnIndex, turn: &Option<String>, day: i32)
    ensures
        turn_days_view(final(fast).referenced_turn_days@) == spec_reference_turn(
            turn_days_view(old(fast).referenced_turn_days@),
            string_opt_view(*turn),
            day,
            old(fast).detail_cutoff,
        ),
        final(fast).turns@ == old(fast).turns@,
        final(fast).detail_cutoff == old(fast).detail_cutoff,
{
    let t = match turn {
        Some(t) => t,
        None => return,
    };
    if day < fast.detail_cutoff {
        return;
    }
    let ghost all = turn_days_view(fast.referenced_turn_days@);
    let mut i: usize = 0;
    while i < fast.referenced_turn_days.len()
        invariant
            all == turn_days_view(fast.referenced_turn_days@),
            *fast == *old(fast),
            string_opt_view(*turn) == Some(t@),
            day >= fast.detail_cutoff,
            i <= fast.referenced_turn_days@.len(),
            forall|j: int| 0 <= j < i ==> all[j] != (t@, day),
        decreases fast.referenced_turn_days@.len() - i,
    {
        let entry = &fast.referenced_turn_days[i];
        if entry.day == day && str_eq(entry.turn_id.as_str(), t.as_str()) {
            assert(all[i as int] == (t@, day));
            assert(all.contains((t@, day)));
            return;
        }
        i = i + 1;
    }
    assert(!all.contains((t@, day)));
    fast.referenced_turn_days.push(TurnDay { turn_id: t.clone(), day });
    assert(turn_days_view(fast.referenced_turn_days@) =~= all.push((t@, day)));
}

/// The model of the first fast turn with the given identifier.
fn lookup_fast_turn(turns: &Vec<FastTurn>, turn_id: &str) -> (r: Option<Option<String>>)
    ensures
        match r {
            Some(m) => find_fast_turn(turns_view(turns@), turn_id@) == Some(string_opt_view(m)),
            None => find_fast_turn(turns_view(turns@), turn_id@) is None,
        },
{
    let ghost all = turns_view(turns@);
    let mut i: usize = 0;
    assert(all.skip(0) =~= all);
    while i < turns.len()
        invariant
            all == turns_view(turns@),
            i <= turns@.len(),
            find_fast_turn(all, turn_id@) == find_fast_turn(all.skip(i as int), turn_id@),
        decreases turns@.len() - i,
    {
        assert(all.skip(i as int).drop_first() =~= all.skip(i + 1));
        assert(all.skip(i as int)[0] == all[i as int]);
        if str_eq(turns[i].turn_id.as_str(), turn_id) {
            return Some(clone_opt_string(&turns[i].model));
        }
        i = i + 1;
    }
    None
}

#[verifier::rlimit(50)]
fn price_delta(
    state: &RolloutScanState,
    output: &mut IndexedLineOutput,
    fast: &FastTurnIndex,
    catalog: Option<&PricingCatalog>,
    timestamp: Timestamp,
    delta: TokenUsage,
    last: Option<TokenUsage>,
    turn: &Option<String>,
) -> (r: bool)
    ensures
        (world_of(state@, *final(output), *fast), r) == spec_price_delta(
            world_of(state@, *old(output), *fast),
            timestamp,
            delta,
            last,
            string_opt_view(*turn),
            turns_view(fast.turns@),
            match catalog {
                Some(c) => Some(*c),
                None => None,
            },
        ),
{
    proof {
        reveal(spec_price_delta);
    }
    let fast_turn = match turn {
        Some(t) => lookup_fast_turn(&fast.turns, t.as_str()),
        None => None,
    };
    let pricing_mode = if fast_turn.is_some() {
        PricingMode::Fast
    } else {
        PricingMode::Standard
    };
    let requested = match &fast_turn {
        Some(Some(m)) => if model_has_fast_multiplier(catalog, m.as_str(), timestamp.day) {
            Some(m.as_str())
        } else {
            None
        },
        _ => None,
    };
    let model = match requested {
        Some(m) => Some(m),
        None => opt_as_str(&state.active_model),
    };
    let pricing_input_tokens = match last {
        Some(l) => l.input,
        None => delta.input,
    };
    match add_model_day_delta(
        &mut output.rows,
        timestamp,
        model,
        delta,
        pricing_input_tokens,
        pricing_mode,
    ) {
        Ok(()) => true,
        Err(()) => {
            mark_model_day_incomplete(&mut output.rows, timestamp, opt_as_str(&state.active_model));
            false
        },
    }
}

fn count_delta(
    state: &RolloutScanState,
    output: &mut IndexedLineOutput,
    fast: &mut FastTurnIndex,
    catalog: Option<&PricingCatalog>,
    timestamp: Timestamp,
    in_retention: bool,
    ordinal: u64,
    delta: Result<TokenUsage, ()>,
    last: Option<TokenUsage>,
    turn: &Option<String>,
) -> (r: bool)
    ensures
        (world_of(state@, *final(output), *final(fast)), r) == spec_count_delta(
            world_of(state@, *old(output), *old(fast)),
            timestamp,
            in_retention,
            ordinal,
            delta,
            last,
            string_opt_view(*turn),
            turns_view(old(fast).turns@),
            old(fast).detail_cutoff,
            match catalog {
                Some(c) => Some(*c),
                None => None,
            },
        ),
        final(fast).turns@ == old(fast).turns@,
        final(fast).detail_cutoff == old(fast).detail_cutoff,
{
    if !usage_is_counted(state, in_retention, ordinal) {
        return true;
    }
    reference_turn(fast, turn, timestamp.day);
    match delta {
        Err(()) => {
            mark_model_day_incomplete(&mut output.rows, timestamp, opt_as_str(&state.active_model));
            false
        },
        Ok(d) => price_delta(state, output, fast, catalog, timestamp, d, last, turn),
    }
}

fn token_count(
    state: &mut RolloutScanState,
    output: &mut IndexedLineOutput,
    fast: &mut FastTurnIndex,
    catalog: Option<&PricingCatalog>,
    timestamp: Timestamp,
    in_retention: bool,
    ordinal: u64,
    info: &TokenInfo,
    turn_id: &Option<TurnId>,
    id: &Option<TurnId>,
    payload_model: &Option<String>,
    root_model: &Option<String>,
) -> (r: bool)
    ensures
        (world_of(final(state)@, *final(output), *final(fast)), r) == spec_token_count(
            world_of(old(state)@, *old(output), *old(fast)),
            timestamp,
            in_retention,
            ordinal,
            *info,
            *turn_id,
            *id,
            *payload_model,
            *root_model,
            turns_view(old(fast).turns@),
            old(fast).detail_cutoff,
            match catalog {
                Some(c) => Some(*c),
                None => None,
            },
        ),
        final(fast).turns@ == old(fast).turns@,
        final(fast).detail_cutoff == old(fast).detail_cutoff,
{
    let ready = match token_count_intake(
        state,
        output,
        fast,
        timestamp,
        in_retention,
        ordinal,
        info,
        turn_id,
        id,
        payload_model,
        root_model,
    ) {
        Intake::Done(b) => return b,
        Intake::Ready(c) => c,
    };
    let (current, last) = match resolve_counter(
        state,
        output,
        fast,
        timestamp,
        in_retention,
        ordinal,
        ready.timestamp_ns,
        ready.current,
        ready.raw_last,
        ready.unowned,
    ) {
        ResolvedCount::Done(b) => return b,
        ResolvedCount::Current { current, last } => (current, last),
    };
    let (delta, last) = match counter_delta(
        state,
        output,
        fast,
        timestamp,
        in_retention,
        ordinal,
        current,
        last,
        ready.snapshot_index,
        ready.previous_active_model,
    ) {
        CountedDelta::Done(b) => return b,
        CountedDelta::Delta { delta, last } => (delta, last),
    };
    count_delta(
        state,
        output,
        fast,
        catalog,
        timestamp,
        in_retention,
        ordinal,
        delta,
        last,
        &ready.pricing_turn_id,
    )
}

fn index_event(
    state: &mut RolloutScanState,
    output: &mut IndexedLineOutput,
    fast: &mut FastTurnIndex,
    catalog: Option<&PricingCatalog>,
    timestamp: Timestamp,
    in_retention: bool,
    ordinal: u64,
    event: EventLine,
) -> (r: bool)
    ensures
        (world_of(final(state)@, *final(output), *final(fast)), r) == spec_index_event(
            world_of(old(state)@, *old(output), *old(fast)),
            timestamp,
            in_retention,
            ordinal,
            event,
            turns_view(old(fast).turns@),
            old(fast).detail_cutoff,
            match catalog {
                Some(c) => Some(*c),
                None => None,
            },
        ),
        final(fast).turns@ == old(fast).turns@,
        final(fast).detail_cutoff == old(fast).detail_cutoff,
{
    match event.payload {
        EventPayload::TaskStarted { turn_id } => {
            state.active_turn_id = match turn_id {
                Some(t) => if t.valid {
                    Some(t.value)
                } else {
                    None
                },
                None => None,
            };
            state.task_counter_reset_pending = state.lineage_mode == LineageMode::Root;
            true
        },
        EventPayload::TokenCount { info, turn_id, id, model } => match info {
            Some(info) => token_count(
                state,
                output,
                fast,
                catalog,
                timestamp,
                in_retention,
                ordinal,
                &info,
                &turn_id,
                &id,
                &model,
                &event.model,
            ),
            None => true,
        },
        EventPayload::Other => true,
    }
}

#[verifier::rlimit(100)]
#[verifier::spinoff_prover]
fn turn_context(
    state: &mut RolloutScanState,
    output: &mut IndexedLineOutput,
    fast: &FastTurnIndex,
    timestamp: Timestamp,
    in_retention: bool,
    ordinal: u64,
    model: String,
) -> (r: bool)
    ensures
        (world_of(final(state)@, *final(output), *fast), r) == spec_turn_context(
            world_of(old(state)@, *old(output), *fast),
            timestamp,
            in_retention,
            ordinal,
            model@,
        ),
{
    let valid = valid_model_name(model.as_str());
    state.active_model = if valid {
        Some(model)
    } else {
        None
    };
    if in_retention && !valid {
        mark_model_day_incomplete(&mut output.rows, timestamp, None);
        return false;
    }
    if valid {
        state.last_turn_context_is_first = state.last_turn_context_ordinal.is_none();
        state.last_turn_context_ordinal = Some(ordinal);
    } else {
        state.last_turn_context_is_first = false;
    }
    true
}

#[verifier::rlimit(50)]
fn index_record(
    state: &mut RolloutScanState,
    output: &mut IndexedLineOutput,
    fast: &mut FastTurnIndex,
    catalog: Option<&PricingCatalog>,
    timestamp: Timestamp,
    in_retention: bool,
    ordinal: u64,
    record_type: &str,
    body: RecordBody,
) -> (r: bool)
    ensures
        (world_of(final(state)@, *final(output), *final(fast)), r) == spec_index_record(
            world_of(old(state)@, *old(output), *old(fast)),
            timestamp,
            in_retention,
            ordinal,
            record_type@,
            body,
            turns_view(old(fast).turns@),
            old(fast).detail_cutoff,
            match catalog {
                Some(c) => Some(*c),
                None => None,
            },
        ),
        final(fast).turns@ == old(fast).turns@,
        final(fast).detail_cutoff == old(fast).detail_cutoff,
{
    if str_eq(record_type, "session_meta") {
        match body {
            RecordBody::SessionMeta { timestamp: line_timestamp, payload } => {
                let applied = apply_session_metadata(state, payload, line_timestamp.as_str());
                if applied.is_err() && in_retention {
                    mark_model_day_incomplete(&mut output.rows, timestamp, opt_as_str(&state.active_model));
                }
                state.schema_supported || state.exclude_usage
            },
            _ => {
                if in_retention {
                    mark_model_day_incomplete(&mut output.rows, timestamp, opt_as_str(&state.active_model));
                }
                false
            },
        }
    } else if str_eq(record_type, "inter_agent_communication_metadata") {
        match body {
            RecordBody::InterAgent(m) => {
                apply_inter_agent_boundary(state, ordinal, m);
                true
            },
            _ => {
                if in_retention && !state.exclude_usage {
                    mark_model_day_incomplete(&mut output.rows, timestamp, opt_as_str(&state.active_model));
                }
                false
            },
        }
    } else if str_eq(record_type, "turn_context") {
        match body {
            RecordBody::TurnContext { model } => turn_context(
                state,
                output,
                fast,
                timestamp,
                in_retention,
                ordinal,
                model,
            ),
            _ => {
                if in_retention {
                    mark_model_day_incomplete(&mut output.rows, timestamp, opt_as_str(&state.active_model));
                }
                false
            },
        }
    } else if str_eq(record_type, "event_msg") {
        match body {
            RecordBody::Event(event) => index_event(
                state,
                output,
                fast,
                catalog,
                timestamp,
                in_retention,
                ordinal,
                event,
            ),
            _ => {
                if in_retention {
                    mark_model_day_incomplete(&mut output.rows, timestamp, opt_as_str(&state.active_model));
                }
                false
            },
        }
    } else {
        true
    }
}

/// Indexes one decoded rollout record into the rollout state, the file's
/// model-day rows and snapshots, and the turn days that fast pricing
/// evidence must cover.
#[verifier::rlimit(50)]
pub fn process_index_line(
    line: DecodedLine,
    context: IndexLineContext,
    state: &mut RolloutScanState,
    output: &mut IndexedLineOutput,
    fast_turn_index: &mut FastTurnIndex,
    catalog: Option<&PricingCatalog>,
) -> (r: IndexLineOutcome)
    ensures
        (world_of(final(state)@, *final(output), *final(fast_turn_index)), r)
            == spec_process_index_line(
            line,
            context,
            world_of(old(state)@, *old(output), *old(fast_turn_index)),
            turns_view(old(fast_turn_index).turns@),
            old(fast_turn_index).detail_cutoff,
            match catalog {
                Some(c) => Some(*c),
                None => None,
            },
        ),
        final(fast_turn_index).turns@ == old(fast_turn_index).turns@,
        final(fast_turn_index).detail_cutoff == old(fast_turn_index).detail_cutoff,
{
    if line.byte_len > MAX_ROLLOUT_LINE_BYTES {
        return IndexLineOutcome::Processed(false);
    }
    let header = match line.header {
        Some(h) => h,
        None => return IndexLineOutcome::Processed(false),
    };
    let meta = match &line.body {
        RecordBody::SessionMeta { payload, .. } => Some(payload),
        _ => None,
    };
    let ordinal = match effective_record_ordinal(
        context.record_ordinal,
        header.ordinal,
        context.line_starts_file,
        header.record_type.as_str(),
        meta,
        &mut state.provider_ordinal_mode,
    ) {
        Ok(o) => o,
        Err(()) => return IndexLineOutcome::Processed(false),
    };
    state.record_ordinal = ordinal;
    index_dated_record(
        state,
        output,
        fast_turn_index,
        catalog,
        context,
        ordinal,
        header.timestamp.as_str(),
        header.record_type.as_str(),
        line.body,
    )
}

fn index_dated_record(
    state: &mut RolloutScanState,
    output: &mut IndexedLineOutput,
    fast: &mut FastTurnIndex,
    catalog: Option<&PricingCatalog>,
    context: IndexLineContext,
    ordinal: u64,
    timestamp: &str,
    record_type: &str,
    body: RecordBody,
) -> (r: IndexLineOutcome)
    ensures
        (world_of(final(state)@, *final(output), *final(fast)), r) == spec_index_dated_record(
            world_of(old(state)@, *old(output), *old(fast)),
            context,
            ordinal,
            timestamp@,
            record_type@,
            body,
            turns_view(old(fast).turns@),
            old(fast).detail_cutoff,
            match catalog {
                Some(c) => Some(*c),
                None => None,
            },
        ),
        final(fast).turns@ == old(fast).turns@,
        final(fast).detail_cutoff == old(fast).detail_cutoff,
{
    proof {
        reveal(spec_index_dated_record);
    }
    let t = match parse_rollout_timestamp(timestamp) {
        Ok(t) => t,
        Err(()) => return IndexLineOutcome::Processed(false),
    };
    assert(spec_rollout_timestamp(timestamp@) == Some(t));
    if t.day > context.today {
        return IndexLineOutcome::DeferredUntil(t.day);
    }
    let in_retention = t.day >= context.cutoff && t.day <= context.today;
    let processed = index_record(
        state,
        output,
        fast,
        catalog,
        t,
        in_retention,
        ordinal,
        record_type,
        body,
    );
    IndexLineOutcome::Processed(processed)
}

/// Upserting a key keeps keys unique, and the keyed row carries the key.
proof fn lemma_upsert_row_unique(
    rows: Seq<RowView>,
    day: i32,
    model: Seq<char>,
    pricing_input_tokens: u64,
    mode: PricingMode,
    fresh: RowView,
)
    requires
        rows_keys_unique(rows),
        row_has_key(fresh, day, model, pricing_input_tokens, mode),
    ensures
        ({
            let (r1, i) = upsert_row(rows, day, model, pricing_input_tokens, mode, fresh);
            &&& rows_keys_unique(r1)
            &&& 0 <= i < r1.len()
            &&& row_has_key(r1[i], day, model, pricing_input_tokens, mode)
            &&& r1.len() >= rows.len()
            &&& forall|j: int| 0 <= j < rows.len() ==> r1[j] == rows[j]
        }),
{
    lemma_find_row_found(rows, day, model, pricing_input_tokens, mode);
}

/// Changing a row without changing its key keeps keys unique.
proof fn lemma_update_row_unique(rows: Seq<RowView>, i: int, r: RowView)
    requires
        rows_keys_unique(rows),
        0 <= i < rows.len(),
        row_has_key(
            r,
            rows[i].day,
            rows[i].model,
            rows[i].pricing_input_tokens,
            rows[i].pricing_mode,
        ),
    ensures
        rows_keys_unique(rows.update(i, r)),
{
    let u = rows.update(i, r);
    assert forall|a: int, b: int|
        #![trigger u[a], u[b]]
        0 <= a < u.len() && 0 <= b < u.len() && a != b implies !row_has_key(
            u[b],
            u[a].day,
            u[a].model,
            u[a].pricing_input_tokens,
            u[a].pricing_mode,
        ) by {
        if a == i {
            assert(!row_has_key(rows[b], rows[i].day, rows[i].model, rows[i].pricing_input_tokens, rows[i].pricing_mode));
        } else if b == i {
            assert(!row_has_key(rows[i], rows[a].day, rows[a].model, rows[a].pricing_input_tokens, rows[a].pricing_mode));
        } else {
            assert(!row_has_key(rows[b], rows[a].day, rows[a].model, rows[a].pricing_input_tokens, rows[a].pricing_mode));
        }
    }
}

/// Marking a model-day incomplete keeps the rows' keys unique.
pub proof fn law_marking_keeps_row_keys_unique(
    rows: Seq<RowView>,
    timestamp: Timestamp,
    model: Option<Seq<char>>,
)
    requires
        rows_keys_unique(rows),
    ensures
        rows_keys_unique(spec_mark_model_day_incomplete(rows, timestamp, model)),
{
    let m = row_model(model);
    let fresh = RowView {
        day: timestamp.day,
        model: m,
        pricing_input_tokens: 0,
        pricing_mode: PricingMode::Standard,
        usage: zero_usage(),
        complete: false,
        observed_through: timestamp.unix_nanos,
    };
    lemma_upsert_row_unique(rows, timestamp.day, m, 0, PricingMode::Standard, fresh);
    let (r1, i) = upsert_row(rows, timestamp.day, m, 0, PricingMode::Standard, fresh);
    lemma_update_row_unique(
        r1,
        i,
        RowView {
            complete: false,
            observed_through: max_nanos(r1[i].observed_through, timestamp.unix_nanos),
            ..r1[i]
        },
    );
}

/// Adding a delta keeps the rows' keys unique.
pub proof fn law_adding_keeps_row_keys_unique(
    rows: Seq<RowView>,
    timestamp: Timestamp,
    model: Option<Seq<char>>,
    delta: TokenUsage,
    pricing_input_tokens: u64,
    mode: PricingMode,
)
    requires
        rows_keys_unique(rows),
    ensures
        rows_keys_unique(
            spec_add_model_day_delta(rows, timestamp, model, delta, pricing_input_tokens, mode).0,
        ),
{
    if delta.total != 0 {
        let m = row_model(model);
        let fresh = RowView {
            day: timestamp.day,
            model: m,
            pricing_input_tokens,
            pricing_mode: mode,
            usage: zero_usage(),
            complete: model is Some,
            observed_through: timestamp.unix_nanos,
        };
        lemma_upsert_row_unique(rows, timestamp.day, m, pricing_input_tokens, mode, fresh);
        let (r1, i) = upsert_row(rows, timestamp.day, m, pricing_input_tokens, mode, fresh);
        if let Ok(u) = spec_checked_add_usage(r1[i].usage, delta) {
            lemma_update_row_unique(
                r1,
                i,
                RowView {
                    usage: u,
                    complete: r1[i].complete && model is Some,
                    observed_through: max_nanos(r1[i].observed_through, timestamp.unix_nanos),
                    ..r1[i]
                },
            );
        }
    }
}

/// A step keeps row keys unique, and outside the retention window leaves
/// rows and snapshots as they were.
pub open spec fn keeps_rows(before: IndexWorld, after: IndexWorld, in_retention: bool) -> bool {
    &&& rows_keys_unique(before.rows) ==> rows_keys_unique(after.rows)
    &&& !in_retention ==> after.rows == before.rows && after.snapshots == before.snapshots
}

proof fn lemma_mark_keeps(
    w: IndexWorld,
    cond: bool,
    timestamp: Timestamp,
    model: Option<Seq<char>>,
    in_retention: bool,
)
    requires
        cond ==> in_retention,
    ensures
        keeps_rows(w, mark_world_if(w, cond, timestamp, model), in_retention),
        mark_world_if(w, cond, timestamp, model).snapshots == w.snapshots,
{
    if rows_keys_unique(w.rows) {
        law_marking_keeps_row_keys_unique(w.rows, timestamp, model);
    }
}

proof fn lemma_counter_intake_keeps(
    w1: IndexWorld,
    timestamp: Timestamp,
    in_retention: bool,
    ordinal: u64,
    total: Option<TokenUsage>,
    raw_last: Option<TokenUsage>,
    previous_active_model: Option<Seq<char>>,
    turn: Option<Seq<char>>,
)
    ensures
        ({
            let (w2, intake) = spec_counter_intake(
                w1,
                timestamp,
                in_retention,
                ordinal,
                total,
                raw_last,
                previous_active_model,
                turn,
            );
            &&& keeps_rows(w1, w2, in_retention)
            &&& intake matches TokenIntake::Ready { snapshot_index, .. } ==> (snapshot_index is Some
                <==> in_retention) && (snapshot_index matches Some(k) ==> 0 <= k
                < w2.snapshots.len())
        }),
{
    reveal(spec_counter_check);
    reveal(spec_record_counter);
    lemma_mark_keeps(w1, in_retention, timestamp, w1.state.active_model, in_retention);
    lemma_mark_keeps(
        w1,
        in_retention && !w1.state.exclude_usage,
        timestamp,
        w1.state.active_model,
        in_retention,
    );
}

proof fn lemma_resolve_counter_keeps(
    w: IndexWorld,
    timestamp: Timestamp,
    in_retention: bool,
    ordinal: u64,
    ns: i64,
    raw_current: TokenUsage,
    raw_last: Option<TokenUsage>,
    unowned: bool,
)
    ensures
        ({
            let (w2, _) = spec_resolve_counter(
                w,
                timestamp,
                in_retention,
                ordinal,
                ns,
                raw_current,
                raw_last,
                unowned,
            );
            &&& keeps_rows(w, w2, in_retention)
            &&& w2.snapshots == w.snapshots
        }),
{
    reveal(spec_resolve_counter);
    lemma_mark_keeps(
        w,
        in_retention && !w.state.exclude_usage,
        timestamp,
        w.state.active_model,
        in_retention,
    );
}

proof fn lemma_counter_delta_keeps(
    w: IndexWorld,
    timestamp: Timestamp,
    in_retention: bool,
    ordinal: u64,
    current: TokenUsage,
    last: Option<TokenUsage>,
    snapshot_index: Option<int>,
    previous_active_model: Option<Seq<char>>,
)
    requires
        snapshot_index is Some ==> in_retention,
    ensures
        keeps_rows(
            w,
            spec_counter_delta(
                w,
                timestamp,
                in_retention,
                ordinal,
                current,
                last,
                snapshot_index,
                previous_active_model,
            ).0,
            in_retention,
        ),
{
    reveal(spec_delta_over_previous);
    reveal(spec_delta_from_start);
    let w4 = with_state(w, ScanStateView { task_counter_reset_pending: false, ..w.state });
    let keep = ScanStateView { previous: Some(current), ..w4.state };
    lemma_mark_keeps(with_state(w4, keep), in_retention, timestamp, w4.state.active_model, in_retention);
}

proof fn lemma_count_delta_keeps(
    w: IndexWorld,
    timestamp: Timestamp,
    in_retention: bool,
    ordinal: u64,
    delta: Result<TokenUsage, ()>,
    last: Option<TokenUsage>,
    turn: Option<Seq<char>>,
    turns: Seq<(Seq<char>, Option<Seq<char>>)>,
    detail_cutoff: i32,
    catalog: Option<PricingCatalog>,
)
    ensures
        keeps_rows(
            w,
            spec_count_delta(
                w,
                timestamp,
                in_retention,
                ordinal,
                delta,
                last,
                turn,
                turns,
                detail_cutoff,
                catalog,
            ).0,
            in_retention,
        ),
{
    reveal(spec_price_delta);
    if spec_usage_is_counted(w.state, in_retention, ordinal) && rows_keys_unique(w.rows) {
        let w1 = IndexWorld {
            referenced: spec_reference_turn(w.referenced, turn, timestamp.day, detail_cutoff),
            ..w
        };
        law_marking_keeps_row_keys_unique(w1.rows, timestamp, w.state.active_model);
        if let Ok(d) = delta {
            let fast = match turn {
                Some(t) => find_fast_turn(turns, t),
                None => None,
            };
            let mode = if fast is Some {
                PricingMode::Fast
            } else {
                PricingMode::Standard
            };
            let model = match fast {
                Some(Some(m)) if spec_model_has_fast_multiplier(
                    catalog,
                    encode_utf8(m),
                    timestamp.day,
                ) => Some(m),
                _ => w1.state.active_model,
            };
            let pit = match last {
                Some(l) => l.input,
                None => d.input,
            };
            law_adding_keeps_row_keys_unique(w1.rows, timestamp, model, d, pit, mode);
            let rows = spec_add_model_day_delta(w1.rows, timestamp, model, d, pit, mode).0;
            law_marking_keeps_row_keys_unique(rows, timestamp, w1.state.active_model);
        }
    }
}

proof fn lemma_token_count_keeps(
    w: IndexWorld,
    timestamp: Timestamp,
    in_retention: bool,
    ordinal: u64,
    info: TokenInfo,
    turn_id: Option<TurnId>,
    id: Option<TurnId>,
    payload_model: Option<String>,
    root_model: Option<String>,
    turns: Seq<(Seq<char>, Option<Seq<char>>)>,
    detail_cutoff: i32,
    catalog: Option<PricingCatalog>,
)
    ensures
        keeps_rows(
            w,
            spec_token_count(
                w,
                timestamp,
                in_retention,
                ordinal,
                info,
                turn_id,
                id,
                payload_model,
                root_model,
                turns,
                detail_cutoff,
                catalog,
            ).0,
            in_retention,
        ),
{
    let turn = spec_pricing_turn_id(
        turn_id_view(turn_id),
        turn_id_view(id),
        turn_id_view(info.turn_id),
        turn_id_view(info.id),
        w.state.active_turn_id,
    );
    let w0 = with_state(w, spec_intake_model(w.state, info, payload_model, root_model));
    lemma_counter_intake_keeps(
        w0,
        timestamp,
        in_retention,
        ordinal,
        info.total_token_usage,
        info.last_token_usage,
        w.state.active_model,
        turn,
    );
    let (w1, intake) = spec_token_count_intake(
        w,
        timestamp,
        in_retention,
        ordinal,
        info,
        turn_id,
        id,
        payload_model,
        root_model,
    );
    if let TokenIntake::Ready {
        current,
        raw_last,
        timestamp_ns,
        unowned,
        snapshot_index,
        previous_active_model,
        pricing_turn_id,
    } = intake {
        lemma_resolve_counter_keeps(
            w1,
            timestamp,
            in_retention,
            ordinal,
            timestamp_ns,
            current,
            raw_last,
            unowned,
        );
        let (w2, resolved) = spec_resolve_counter(
            w1,
            timestamp,
            in_retention,
            ordinal,
            timestamp_ns,
            current,
            raw_last,
            unowned,
        );
        if let Resolved::Current { current, last } = resolved {
            lemma_counter_delta_keeps(
                w2,
                timestamp,
                in_retention,
                ordinal,
                current,
                last,
                snapshot_index,
                previous_active_model,
            );
            let (w3, step) = spec_counter_delta(
                w2,
                timestamp,
                in_retention,
                ordinal,
                current,
                last,
                snapshot_index,
                previous_active_model,
            );
            if let DeltaStep::Delta { delta, last } = step {
                lemma_count_delta_keeps(
                    w3,
                    timestamp,
                    in_retention,
                    ordinal,
                    delta,
                    last,
                    pricing_turn_id,
                    turns,
                    detail_cutoff,
                    catalog,
                );
            }
        }
    }
}

proof fn lemma_index_record_keeps(
    w: IndexWorld,
    timestamp: Timestamp,
    in_retention: bool,
    ordinal: u64,
    record_type: Seq<char>,
    body: RecordBody,
    turns: Seq<(Seq<char>, Option<Seq<char>>)>,
    detail_cutoff: i32,
    catalog: Option<PricingCatalog>,
)
    ensures
        keeps_rows(
            w,
            spec_index_record(
                w,
                timestamp,
                in_retention,
                ordinal,
                record_type,
                body,
                turns,
                detail_cutoff,
                catalog,
            ).0,
            in_retention,
        ),
{
    lemma_mark_keeps(w, in_retention, timestamp, w.state.active_model, in_retention);
    lemma_mark_keeps(
        w,
        in_retention && !w.state.exclude_usage,
        timestamp,
        w.state.active_model,
        in_retention,
    );
    match body {
        RecordBody::SessionMeta { timestamp: line_timestamp, payload } => {
            let (s2, ok) = spec_apply_session_metadata(w.state, payload, line_timestamp@);
            lemma_mark_keeps(with_state(w, s2), !ok && in_retention, timestamp, s2.active_model, in_retention);
        },
        RecordBody::TurnContext { model } => {
            let active = if spec_valid_model_name(model@) {
                Some(model@)
            } else {
                None
            };
            let s2 = ScanStateView { active_model: active, ..w.state };
            lemma_mark_keeps(with_state(w, s2), in_retention, timestamp, None, in_retention);
        },
        RecordBody::Event(event) => {
            if let EventPayload::TokenCount { info: Some(info), turn_id, id, model } = event.payload {
                lemma_token_count_keeps(
                    w,
                    timestamp,
                    in_retention,
                    ordinal,
                    info,
                    turn_id,
                    id,
                    model,
                    event.model,
                    turns,
                    detail_cutoff,
                    catalog,
                );
            }
        },
        _ => {},
    }
}

/// Indexing a record never gives two model-day rows the same key.
pub proof fn law_indexing_keeps_row_keys_unique(
    line: DecodedLine,
    context: IndexLineContext,
    w: IndexWorld,
    turns: Seq<(Seq<char>, Option<Seq<char>>)>,
    detail_cutoff: i32,
    catalog: Option<PricingCatalog>,
)
    requires
        rows_keys_unique(w.rows),
    ensures
        rows_keys_unique(
            spec_process_index_line(line, context, w, turns, detail_cutoff, catalog).0.rows,
        ),
{
    lemma_dated_record_keeps(line, context, w, turns, detail_cutoff, catalog);
}

/// A record of a UTC day before the retention window leaves the model-day
/// rows and the snapshots as they were; only the rollout state advances.
pub proof fn law_records_before_retention_leave_rows(
    line: DecodedLine,
    context: IndexLineContext,
    w: IndexWorld,
    turns: Seq<(Seq<char>, Option<Seq<char>>)>,
    detail_cutoff: i32,
    catalog: Option<PricingCatalog>,
)
    requires
        line.header matches Some(h) && (spec_rollout_timestamp(h.timestamp@) matches Some(t)
            && t.day < context.cutoff),
    ensures
        ({
            let after = spec_process_index_line(line, context, w, turns, detail_cutoff, catalog).0;
            after.rows == w.rows && after.snapshots == w.snapshots
        }),
{
    lemma_dated_record_keeps(line, context, w, turns, detail_cutoff, catalog);
}

/// A record at its expected ordinal whose UTC day is after `today` is
/// deferred to that day and changes no row, snapshot or turn day.
pub proof fn law_future_records_are_deferred(
    line: DecodedLine,
    context: IndexLineContext,
    w: IndexWorld,
    turns: Seq<(Seq<char>, Option<Seq<char>>)>,
    detail_cutoff: i32,
    catalog: Option<PricingCatalog>,
    t: Timestamp,
)
    requires
        line.byte_len <= MAX_ROLLOUT_LINE_BYTES,
        line.header matches Some(h) && spec_rollout_timestamp(h.timestamp@) == Some(t)
            && spec_effective_record_ordinal(
            context.record_ordinal,
            h.ordinal,
            context.line_starts_file,
            h.record_type@,
            body_session_meta(line.body),
            w.state.provider_ordinal_mode,
        ).0 is Ok,
        t.day > context.today,
    ensures
        ({
            let (after, outcome) = spec_process_index_line(
                line,
                context,
                w,
                turns,
                detail_cutoff,
                catalog,
            );
            &&& outcome == IndexLineOutcome::DeferredUntil(t.day)
            &&& after.rows == w.rows
            &&& after.snapshots == w.snapshots
            &&& after.referenced == w.referenced
        }),
{
    reveal(spec_index_dated_record);
}

proof fn lemma_dated_record_keeps(
    line: DecodedLine,
    context: IndexLineContext,
    w: IndexWorld,
    turns: Seq<(Seq<char>, Option<Seq<char>>)>,
    detail_cutoff: i32,
    catalog: Option<PricingCatalog>,
)
    ensures
        ({
            let after = spec_process_index_line(line, context, w, turns, detail_cutoff, catalog).0;
            &&& rows_keys_unique(w.rows) ==> rows_keys_unique(after.rows)
            &&& (line.header matches Some(h) && (spec_rollout_timestamp(h.timestamp@) matches Some(
                t,
            ) && t.day < context.cutoff)) ==> after.rows == w.rows && after.snapshots
                == w.snapshots
        }),
{
    reveal(spec_index_dated_record);
    if line.byte_len <= MAX_ROLLOUT_LINE_BYTES {
        if let Some(header) = line.header {
            let (ordinal, mode) = spec_effective_record_ordinal(
                context.record_ordinal,
                header.ordinal,
                context.line_starts_file,
                header.record_type@,
                body_session_meta(line.body),
                w.state.provider_ordinal_mode,
            );
            let w0 = with_state(w, ScanStateView { provider_ordinal_mode: mode, ..w.state });
            if let Ok(o) = ordinal {
                let w1 = with_state(w0, ScanStateView { record_ordinal: o, ..w0.state });
                if let Some(t) = spec_rollout_timestamp(header.timestamp@) {
                    lemma_index_record_keeps(
                        w1,
                        t,
                        t.day >= context.cutoff && t.day <= context.today,
                        o,
                        header.record_type@,
                        line.body,
                        turns,
                        detail_cutoff,
                        catalog,
                    );
                }
            }
        }
    }
}

/// The characters of each name.
pub open spec fn names_view(names: Seq<String>) -> Seq<Seq<char>> {
    names.map_values(|v: String| v@)
}

/// A turn's fast evidence changed when one side knows the turn and the
/// two sides do not agree on it.
pub open spec fn fast_turn_changed(
    stored: Seq<(Seq<char>, Option<Seq<char>>)>,
    evidence: Seq<(Seq<char>, Option<Seq<char>>)>,
    turn_id: Seq<char>,
) -> bool {
    (find_fast_turn(stored, turn_id) is Some || find_fast_turn(evidence, turn_id) is Some)
        && find_fast_turn(stored, turn_id) != find_fast_turn(evidence, turn_id)
}

proof fn lemma_find_fast_turn_present(turns: Seq<(Seq<char>, Option<Seq<char>>)>, turn_id: Seq<char>)
    ensures
        find_fast_turn(turns, turn_id) is Some <==> exists|i: int|
            0 <= i < turns.len() && (#[trigger] turns[i]).0 == turn_id,
    decreases turns.len(),
{
    if turns.len() > 0 {
        lemma_find_fast_turn_present(turns.drop_first(), turn_id);
        if exists|i: int| 0 <= i < turns.len() && (#[trigger] turns[i]).0 == turn_id {
            let i = choose|i: int| 0 <= i < turns.len() && (#[trigger] turns[i]).0 == turn_id;
            if i > 0 {
                assert(turns.drop_first()[i - 1] == turns[i]);
            }
        }
        if exists|i: int|
            0 <= i < turns.drop_first().len() && (#[trigger] turns.drop_first()[i]).0 == turn_id {
            let i = choose|i: int|
                0 <= i < turns.drop_first().len() && (#[trigger] turns.drop_first()[i]).0
                    == turn_id;
            assert(turns[i + 1] == turns.drop_first()[i]);
        }
    }
}

fn same_fast_turn(a: &Option<Option<String>>, b: &Option<Option<String>>) -> (r: bool)
    ensures
        r == (match *a {
            Some(m) => Some(string_opt_view(m)),
            None => None,
        } == match *b {
            Some(m) => Some(string_opt_view(m)),
            None => None,
        }),
{
    match (a, b) {
        (None, None) => true,
        (Some(None), Some(None)) => true,
        (Some(Some(x)), Some(Some(y))) => str_eq(x.as_str(), y.as_str()),
        _ => false,
    }
}

fn lists_turn(values: &Vec<String>, turn_id: &str) -> (r: bool)
    ensures
        r == names_view(values@).contains(turn_id@),
{
    let ghost all = names_view(values@);
    let mut i: usize = 0;
    while i < values.len()
        invariant
            all == names_view(values@),
            i <= values@.len(),
            forall|k: int| 0 <= k < i ==> all[k] != turn_id@,
        decreases values@.len() - i,
    {
        if str_eq(values[i].as_str(), turn_id) {
            assert(all[i as int] == turn_id@);
            return true;
        }
        i = i + 1;
    }
    false
}

/// Adds the turns of `source` whose evidence changed to `changed`.
fn collect_changed_turns(
    changed: &mut Vec<String>,
    source: &Vec<FastTurn>,
    stored: &Vec<FastTurn>,
    evidence: &Vec<FastTurn>,
)
    requires
        names_view(old(changed)@).no_duplicates(),
        forall|id: Seq<char>|
            #[trigger] names_view(old(changed)@).contains(id) ==> fast_turn_changed(
                turns_view(stored@),
                turns_view(evidence@),
                id,
            ),
    ensures
        names_view(final(changed)@).no_duplicates(),
        forall|id: Seq<char>|
            #[trigger] names_view(final(changed)@).contains(id) ==> fast_turn_changed(
                turns_view(stored@),
                turns_view(evidence@),
                id,
            ),
        forall|id: Seq<char>|
            #[trigger] names_view(old(changed)@).contains(id) ==> names_view(final(changed)@).contains(id),
        forall|i: int|
            0 <= i < source@.len() && fast_turn_changed(
                turns_view(stored@),
                turns_view(evidence@),
                #[trigger] turns_view(source@)[i].0,
            ) ==> names_view(final(changed)@).contains(turns_view(source@)[i].0),
{
    let ghost st = turns_view(stored@);
    let ghost ev = turns_view(evidence@);
    let ghost src = turns_view(source@);
    let ghost start = names_view(changed@);
    let mut i: usize = 0;
    while i < source.len()
        invariant
            st == turns_view(stored@),
            ev == turns_view(evidence@),
            src == turns_view(source@),
            i <= source@.len(),
            names_view(changed@).no_duplicates(),
            forall|id: Seq<char>|
                #[trigger] names_view(changed@).contains(id) ==> fast_turn_changed(
                    st,
                    ev,
                    id,
                ),
            forall|id: Seq<char>|
                #[trigger] start.contains(id) ==> names_view(changed@).contains(
                    id,
                ),
            forall|k: int|
                0 <= k < i && fast_turn_changed(st, ev, #[trigger] src[k].0) ==> names_view(changed@).contains(src[k].0),
        decreases source@.len() - i,
    {
        let id = source[i].turn_id.as_str();
        assert(src[i as int].0 == id@);
        let in_stored = lookup_fast_turn(stored, id);
        let in_evidence = lookup_fast_turn(evidence, id);
        let ghost before = names_view(changed@);
        if !same_fast_turn(&in_stored, &in_evidence) && !lists_turn(changed, id) {
            changed.push(id.to_owned());
            assert(names_view(changed@) =~= before.push(id@));
            proof {
                assert forall|a: int, b: int|
                    0 <= a < b < before.push(id@).len() implies before.push(id@)[a]
                    != before.push(id@)[b] by {
                    if b == before.len() {
                        assert(before[a] == before.push(id@)[a]);
                    }
                }
                assert(find_fast_turn(st, id@) == match in_stored {
                    Some(m) => Some(string_opt_view(m)),
                    None => None,
                });
                assert(find_fast_turn(ev, id@) == match in_evidence {
                    Some(m) => Some(string_opt_view(m)),
                    None => None,
                });
                assert(fast_turn_changed(st, ev, id@));
                assert forall|x: Seq<char>| #[trigger] before.push(id@).contains(x) implies fast_turn_changed(st, ev, x) by {
                    if x != id@ {
                        let w = choose|w: int| 0 <= w < before.push(id@).len() && before.push(id@)[w] == x;
                        assert(before[w] == x);
                        assert(before.contains(x));
                    }
                }
                assert forall|x: Seq<char>| #[trigger] start.contains(x) implies before.push(id@).contains(x) by {
                    let w = choose|w: int| 0 <= w < before.len() && before[w] == x;
                    assert(before.push(id@)[w] == x);
                }
                assert forall|k: int| 0 <= k < i + 1 && fast_turn_changed(st, ev, #[trigger] src[k].0) implies before.push(id@).contains(src[k].0) by {
                    if k < i {
                        let w = choose|w: int| 0 <= w < before.len() && before[w] == src[k].0;
                        assert(before.push(id@)[w] == src[k].0);
                    } else {
                        assert(before.push(id@)[before.len() as int] == id@);
                    }
                }
            }
        }
        i = i + 1;
    }
}

/// The turns whose fast evidence changed between what the index stored and
/// fresh evidence: each once, and exactly those.
pub fn changed_fast_turns(stored: &Vec<FastTurn>, evidence: &Vec<FastTurn>) -> (r: Vec<String>)
    ensures
        names_view(r@).no_duplicates(),
        forall|id: Seq<char>|
            #[trigger] names_view(r@).contains(id) <==> fast_turn_changed(
                turns_view(stored@),
                turns_view(evidence@),
                id,
            ),
{
    let mut changed: Vec<String> = Vec::new();
    assert(names_view(changed@) =~= Seq::<Seq<char>>::empty());
    collect_changed_turns(&mut changed, stored, stored, evidence);
    collect_changed_turns(&mut changed, evidence, stored, evidence);
    proof {
        let st = turns_view(stored@);
        let ev = turns_view(evidence@);
        assert forall|id: Seq<char>| fast_turn_changed(st, ev, id) implies #[trigger] names_view(changed@).contains(id) by {
            lemma_find_fast_turn_present(st, id);
            lemma_find_fast_turn_present(ev, id);
            if find_fast_turn(st, id) is Some {
                let i = choose|i: int| 0 <= i < st.len() && (#[trigger] st[i]).0 == id;
                assert(turns_view(stored@)[i].0 == id);
            } else {
                let i = choose|i: int| 0 <= i < ev.len() && (#[trigger] ev[i]).0 == id;
                assert(turns_view(evidence@)[i].0 == id);
            }
        }
    }
    changed
}

} // verus!
