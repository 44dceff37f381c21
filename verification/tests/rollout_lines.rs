use codex_usage::clock::{parse_ranking_day, timestamp_ns};
use codex_usage::files::PricingMode;
use codex_usage::index_line::{
    add_model_day_delta, mark_model_day_incomplete, process_index_line, DecodedLine, EventLine,
    EventPayload, FastTurn, FastTurnIndex, IndexLineContext, IndexLineOutcome, IndexedLineOutput,
    RecordBody, RolloutHeader, TokenInfo, TurnId, UNKNOWN_MODEL,
};
use codex_usage::pricing::{CatalogModel, CatalogPeriod, PricingCatalog};
use codex_usage::rollout::{
    apply_session_metadata, LineageMode, RequiredWhenPresent, RolloutScanState, SessionMeta,
    ThreadSource,
};
use codex_usage::tokens::TokenUsage;

fn day(value: &str) -> i32 {
    parse_ranking_day(value).unwrap()
}

fn header(timestamp: &str, record_type: &str) -> Option<RolloutHeader> {
    Some(RolloutHeader {
        ordinal: RequiredWhenPresent::Missing,
        timestamp: timestamp.into(),
        record_type: record_type.into(),
    })
}

fn meta(cli_version: &str) -> SessionMeta {
    SessionMeta {
        cli_version: cli_version.into(),
        history_mode: None,
        history_base: RequiredWhenPresent::Missing,
        id: None,
        timestamp: None,
        forked_from_id: None,
        thread_source: None,
        source: None,
        subagent_history_start_ordinal: None,
    }
}

fn session_meta_line(timestamp: &str, cli_version: &str) -> DecodedLine {
    DecodedLine {
        byte_len: 100,
        header: header(timestamp, "session_meta"),
        body: RecordBody::SessionMeta {
            timestamp: timestamp.into(),
            payload: meta(cli_version),
        },
    }
}

fn turn_context_line(timestamp: &str, model: &str) -> DecodedLine {
    DecodedLine {
        byte_len: 100,
        header: header(timestamp, "turn_context"),
        body: RecordBody::TurnContext { model: model.into() },
    }
}

fn usage(input: u64, cached: u64, output: u64, reasoning: u64) -> TokenUsage {
    TokenUsage {
        input,
        cached_input: cached,
        cache_write_input: 0,
        output,
        reasoning_output: reasoning,
        total: input + output,
    }
}

fn token_count_line(
    timestamp: &str,
    last: Option<TokenUsage>,
    total: Option<TokenUsage>,
    turn_id: Option<&str>,
) -> DecodedLine {
    DecodedLine {
        byte_len: 300,
        header: header(timestamp, "event_msg"),
        body: RecordBody::Event(EventLine {
            payload: EventPayload::TokenCount {
                info: Some(TokenInfo {
                    last_token_usage: last,
                    total_token_usage: total,
                    turn_id: None,
                    id: None,
                    model: None,
                    model_name: None,
                }),
                turn_id: turn_id.map(|t| TurnId { value: t.into(), valid: true }),
                id: None,
                model: None,
            },
            model: None,
        }),
    }
}

fn task_started_line(timestamp: &str, turn_id: &str) -> DecodedLine {
    DecodedLine {
        byte_len: 100,
        header: header(timestamp, "event_msg"),
        body: RecordBody::Event(EventLine {
            payload: EventPayload::TaskStarted {
                turn_id: Some(TurnId { value: turn_id.into(), valid: true }),
            },
            model: None,
        }),
    }
}

struct Scan {
    state: RolloutScanState,
    output: IndexedLineOutput,
    fast: FastTurnIndex,
    cutoff: i32,
    today: i32,
    first: bool,
}

impl Scan {
    fn new(cutoff: i32, today: i32) -> Self {
        Scan {
            state: RolloutScanState::new(),
            output: IndexedLineOutput { rows: Vec::new(), snapshots: Vec::new() },
            fast: FastTurnIndex {
                turns: Vec::new(),
                referenced_turn_days: Vec::new(),
                detail_cutoff: cutoff,
            },
            cutoff,
            today,
            first: true,
        }
    }

    fn feed(&mut self, line: DecodedLine, catalog: Option<&PricingCatalog>) -> IndexLineOutcome {
        let context = IndexLineContext {
            cutoff: self.cutoff,
            today: self.today,
            record_ordinal: self.state.record_ordinal,
            line_starts_file: self.first,
        };
        self.first = false;
        let outcome = process_index_line(
            line,
            context,
            &mut self.state,
            &mut self.output,
            &mut self.fast,
            catalog,
        );
        if let IndexLineOutcome::Processed(_) = outcome {
            self.state.record_ordinal += 1;
        }
        outcome
    }

    fn tokens_on(&self, on: i32) -> u64 {
        self.output.rows.iter().filter(|row| row.day == on).map(|row| row.usage.total).sum()
    }

    fn complete_on(&self, on: i32) -> bool {
        self.output.rows.iter().filter(|row| row.day == on).all(|row| row.complete)
    }
}

fn root_scan(today: i32) -> Scan {
    let mut scan = Scan::new(today, today);
    assert_eq!(
        scan.feed(session_meta_line("2026-08-06T10:00:00Z", "0.145.0"), None),
        IndexLineOutcome::Processed(true)
    );
    assert_eq!(
        scan.feed(turn_context_line("2026-08-06T10:00:01Z", "gpt-5.6-sol"), None),
        IndexLineOutcome::Processed(true)
    );
    scan
}

#[test]
fn rollout_scan_counts_root_cumulative_deltas_and_ignores_breakdowns() {
    let today = day("2026-08-06");
    let mut scan = root_scan(today);
    let first = usage(70, 20, 30, 10);
    assert_eq!(
        scan.feed(token_count_line("2026-08-06T10:01:00Z", Some(first), Some(first), None), None),
        IndexLineOutcome::Processed(true)
    );
    let last = usage(140, 40, 60, 20);
    let total = usage(210, 60, 90, 30);
    assert_eq!(
        scan.feed(token_count_line("2026-08-06T10:02:00Z", Some(last), Some(total), None), None),
        IndexLineOutcome::Processed(true)
    );
    assert_eq!(scan.tokens_on(today), 300);
    assert!(scan.complete_on(today));
    assert_eq!(scan.output.snapshots.len(), 2);
    assert_eq!(scan.output.rows.len(), 2);
    assert!(scan.output.rows.iter().all(|row| row.model == "gpt-5.6-sol"));
    assert_eq!(scan.output.rows[0].pricing_input_tokens, 70);
    assert_eq!(scan.output.rows[1].pricing_input_tokens, 140);
}

#[test]
fn rollout_scan_normalizes_the_provider_last_usage_total() {
    let today = day("2026-08-06");
    let mut scan = root_scan(today);
    let mut last = usage(70, 20, 30, 10);
    last.total = 99;
    let total = usage(70, 20, 30, 10);
    assert_eq!(
        scan.feed(token_count_line("2026-08-06T10:01:00Z", Some(last), Some(total), None), None),
        IndexLineOutcome::Processed(true)
    );
    assert_eq!(scan.tokens_on(today), 100);
    assert!(scan.complete_on(today));
}

#[test]
fn a_future_record_is_deferred_to_its_day() {
    let today = day("2026-08-06");
    let mut scan = root_scan(today);
    let first = usage(70, 20, 30, 10);
    scan.feed(token_count_line("2026-08-06T10:01:00Z", Some(first), Some(first), None), None);
    let outcome = scan.feed(
        token_count_line("2026-08-07T10:01:00Z", None, Some(usage(140, 20, 60, 10)), None),
        None,
    );
    assert_eq!(outcome, IndexLineOutcome::DeferredUntil(day("2026-08-07")));
    assert_eq!(scan.tokens_on(today), 100);
    assert_eq!(scan.output.rows.len(), 1);
}

#[test]
fn an_unreviewed_cli_version_is_rejected_from_its_first_record() {
    let today = day("2026-08-06");
    let mut scan = Scan::new(today, today);
    assert_eq!(
        scan.feed(session_meta_line("2026-08-06T10:00:00Z", "0.129.0"), None),
        IndexLineOutcome::Processed(false)
    );
    let first = usage(70, 20, 30, 10);
    assert_eq!(
        scan.feed(token_count_line("2026-08-06T10:01:00Z", Some(first), Some(first), None), None),
        IndexLineOutcome::Processed(false)
    );
    assert_eq!(scan.tokens_on(today), 0);
    assert!(scan.output.rows.is_empty());
    assert!(scan.output.snapshots.is_empty());
}

#[test]
fn records_before_the_retention_window_only_advance_the_state() {
    let today = day("2026-08-06");
    let mut scan = Scan::new(today, today);
    scan.feed(session_meta_line("2026-08-05T10:00:00Z", "0.145.0"), None);
    scan.feed(turn_context_line("2026-08-05T10:00:01Z", "gpt-5.6-sol"), None);
    let first = usage(70, 20, 30, 10);
    assert_eq!(
        scan.feed(token_count_line("2026-08-05T10:01:00Z", Some(first), Some(first), None), None),
        IndexLineOutcome::Processed(true)
    );
    assert!(scan.output.rows.is_empty());
    assert!(scan.output.snapshots.is_empty());
    assert_eq!(scan.state.previous, Some(first));
    let total = usage(140, 40, 60, 20);
    scan.feed(
        token_count_line("2026-08-06T09:00:00Z", Some(usage(70, 20, 30, 10)), Some(total), None),
        None,
    );
    assert_eq!(scan.tokens_on(today), 100);
}

#[test]
fn an_invalid_model_marks_the_day_incomplete() {
    let today = day("2026-08-06");
    let mut scan = Scan::new(today, today);
    scan.feed(session_meta_line("2026-08-06T10:00:00Z", "0.145.0"), None);
    assert_eq!(
        scan.feed(turn_context_line("2026-08-06T10:00:01Z", "bad model name!"), None),
        IndexLineOutcome::Processed(false)
    );
    assert_eq!(scan.output.rows.len(), 1);
    assert_eq!(scan.output.rows[0].model, UNKNOWN_MODEL);
    assert!(!scan.output.rows[0].complete);
}

#[test]
fn a_header_that_failed_its_schema_fails_the_record() {
    let today = day("2026-08-06");
    let mut scan = root_scan(today);
    let outcome = scan.feed(
        DecodedLine { byte_len: 10, header: None, body: RecordBody::Undecoded },
        None,
    );
    assert_eq!(outcome, IndexLineOutcome::Processed(false));
    let oversized = scan.feed(
        DecodedLine {
            byte_len: 4 * 1024 * 1024 + 1,
            header: header("2026-08-06T10:03:00Z", "event_msg"),
            body: RecordBody::Undecoded,
        },
        None,
    );
    assert_eq!(oversized, IndexLineOutcome::Processed(false));
}

#[test]
fn a_proven_fast_turn_prices_at_the_fast_rate_with_its_fast_model() {
    let today = day("2026-08-06");
    let mut scan = root_scan(today);
    scan.fast.turns.push(FastTurn {
        turn_id: "turn-1".into(),
        model: Some("gpt-fast".into()),
    });
    let catalog = PricingCatalog {
        basis: "test".into(),
        models: vec![CatalogModel {
            names: vec!["gpt-fast".into()],
            periods: vec![CatalogPeriod {
                effective_from: day("2026-01-01"),
                effective_until: None,
                has_fast_multiplier: true,
                has_cache_write_price: true,
                long_context_input_tokens_above: 272000,
                long_context_is_neutral: true,
                fast_long_context: None,
            }],
        }],
    };
    scan.feed(task_started_line("2026-08-06T10:00:30Z", "turn-1"), Some(&catalog));
    let first = usage(70, 20, 30, 10);
    scan.feed(
        token_count_line("2026-08-06T10:01:00Z", Some(first), Some(first), None),
        Some(&catalog),
    );
    assert_eq!(scan.output.rows.len(), 1);
    assert_eq!(scan.output.rows[0].pricing_mode, PricingMode::Fast);
    assert_eq!(scan.output.rows[0].model, "gpt-fast");
    assert_eq!(scan.fast.referenced_turn_days.len(), 1);
    assert_eq!(scan.fast.referenced_turn_days[0].turn_id, "turn-1");
    assert_eq!(scan.fast.referenced_turn_days[0].day, today);
}

#[test]
fn a_root_counter_reset_after_a_task_start_counts_the_new_counter() {
    let today = day("2026-08-06");
    let mut scan = root_scan(today);
    let first = usage(700, 0, 300, 0);
    scan.feed(token_count_line("2026-08-06T10:01:00Z", Some(first), Some(first), None), None);
    assert_eq!(scan.state.lineage_mode, LineageMode::Root);
    scan.feed(task_started_line("2026-08-06T10:02:00Z", "turn-2"), None);
    let restarted = usage(70, 0, 30, 0);
    assert_eq!(
        scan.feed(
            token_count_line("2026-08-06T10:03:00Z", Some(restarted), Some(restarted), None),
            None
        ),
        IndexLineOutcome::Processed(true)
    );
    assert_eq!(scan.tokens_on(today), 1_100);
}

#[test]
fn rows_keep_one_entry_per_key() {
    let today = day("2026-08-06");
    let timestamp = codex_usage::clock::parse_rollout_timestamp("2026-08-06T10:00:00Z").unwrap();
    let mut rows = Vec::new();
    add_model_day_delta(&mut rows, timestamp, Some("m"), usage(10, 0, 5, 0), 10, PricingMode::Standard)
        .unwrap();
    add_model_day_delta(&mut rows, timestamp, Some("m"), usage(10, 0, 5, 0), 10, PricingMode::Standard)
        .unwrap();
    mark_model_day_incomplete(&mut rows, timestamp, Some("m"));
    assert_eq!(rows.len(), 2);
    assert_eq!(rows[0].usage.total, 30);
    assert!(rows[0].complete);
    assert_eq!(rows[1].pricing_input_tokens, 0);
    assert!(!rows[1].complete);
    assert_eq!(rows[0].day, today);
}

#[test]
fn malformed_parent_ids_fail_closed_on_initial_and_appended_metadata() {
    let malformed = SessionMeta {
        id: Some("malformed-child".into()),
        forked_from_id: Some(String::new()),
        source: Some(ThreadSource::Details { subagent: true }),
        ..meta("0.146.0-alpha.3.1")
    };
    let mut initial = RolloutScanState::new();
    apply_session_metadata(&mut initial, malformed, "2026-08-06T10:05:00Z").unwrap();
    assert!(initial.lineage_invalid);
    assert!(initial.exclude_usage);

    let malformed_append = SessionMeta {
        id: Some("malformed-child".into()),
        forked_from_id: Some(String::new()),
        ..meta("0.146.0-alpha.3.1")
    };
    let mut appended = RolloutScanState {
        baseline_is_inherited: Some(true),
        schema_supported: true,
        lineage_mode: LineageMode::Independent,
        leaf_session_id: Some("malformed-child".to_owned()),
        fork_timestamp_ns: timestamp_ns("2026-08-06T10:05:00Z").ok(),
        ..RolloutScanState::new()
    };
    apply_session_metadata(&mut appended, malformed_append, "2026-08-06T10:06:00Z").unwrap();
    assert_eq!(appended.lineage_mode, LineageMode::Discovering);
    assert!(appended.lineage_invalid);
    assert!(appended.exclude_usage);
}

#[test]
fn changed_same_parent_fork_time_restarts_lineage_classification() {
    let corrected = SessionMeta {
        id: Some("corrected-child".into()),
        forked_from_id: Some("corrected-parent".into()),
        ..meta("0.146.0-alpha.3.1")
    };
    let old_fork = timestamp_ns("2026-08-06T10:05:00Z").unwrap();
    let new_fork = timestamp_ns("2026-08-06T10:07:00Z").unwrap();
    let mut state = RolloutScanState {
        baseline_is_inherited: Some(true),
        schema_supported: true,
        lineage_mode: LineageMode::ParentResolved,
        leaf_session_id: Some("corrected-child".to_owned()),
        parent_session_id: Some("corrected-parent".to_owned()),
        fork_timestamp_ns: Some(old_fork),
        parent_dependency_key: Some("stale-dependency".to_owned()),
        parent_baseline: Some(usage(700, 0, 300, 0)),
        ..RolloutScanState::new()
    };
    apply_session_metadata(&mut state, corrected, "2026-08-06T10:07:00Z").unwrap();
    assert_eq!(state.lineage_mode, LineageMode::Discovering);
    assert_eq!(state.fork_timestamp_ns, Some(new_fork));
    assert!(state.exclude_usage);
    assert!(state.parent_dependency_key.is_none());
    assert!(state.parent_baseline.is_none());
}

fn undecoded_event(timestamp: &str) -> DecodedLine {
    DecodedLine { byte_len: 100, header: header(timestamp, "event_msg"), body: RecordBody::Undecoded }
}

#[test]
fn rollout_scan_excludes_future_ranking_days() {
    let today = day("2026-08-06");
    let mut scan = root_scan(today);
    let first = usage(70, 20, 30, 10);
    scan.feed(token_count_line("2026-08-06T10:01:00Z", Some(first), Some(first), None), None);
    assert_eq!(
        scan.feed(undecoded_event("2026-08-07T10:01:00Z"), None),
        IndexLineOutcome::DeferredUntil(day("2026-08-07"))
    );
    assert!(scan.output.rows.iter().all(|row| row.day == today));
    assert_eq!(scan.tokens_on(today), 100);
}

#[test]
fn rollout_scan_restores_parser_state_before_the_retention_cutoff() {
    let cutoff = day("2026-08-06");
    let mut scan = Scan::new(cutoff, cutoff);
    scan.feed(session_meta_line("2026-08-05T23:58:00Z", "0.145.0"), None);
    scan.feed(turn_context_line("2026-08-05T23:58:01Z", "gpt-5.6-sol"), None);
    let before = usage(700, 200, 300, 100);
    scan.feed(token_count_line("2026-08-05T23:59:00Z", Some(before), Some(before), None), None);
    scan.feed(
        token_count_line(
            "2026-08-06T00:01:00Z",
            Some(usage(70, 20, 30, 10)),
            Some(usage(770, 220, 330, 110)),
            None,
        ),
        None,
    );
    assert!(scan.output.rows.iter().all(|row| row.day == cutoff));
    assert_eq!(scan.tokens_on(cutoff), 100);
}

#[test]
fn rollout_scan_fails_closed_for_an_unknown_token_schema() {
    let today = day("2026-08-06");
    let mut scan = Scan::new(today, today);
    scan.feed(session_meta_line("2026-08-06T10:00:00Z", "0.145.0"), None);
    assert_eq!(
        scan.feed(undecoded_event("2026-08-06T10:01:00Z"), None),
        IndexLineOutcome::Processed(false)
    );
    assert_eq!(scan.tokens_on(today), 0);
    assert!(scan.output.rows.iter().any(|row| row.day == today));
    assert!(!scan.complete_on(today));
}
