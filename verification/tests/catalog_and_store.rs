use codex_usage::clock::{parse_ranking_day, parse_rollout_timestamp, timestamp_ns, utc_ranking_day};
use codex_usage::file_scan::{
    after_record, cursor_requires_rebuild, frame_chunk, read_limit, scan_completion, ChunkStep,
    FileCursor, FileScan,
};
use codex_usage::files::{FileCompletionState, ROLLOUT_PARSER_VERSION};
use codex_usage::index_line::IndexLineOutcome;
use codex_usage::index_store::{
    decimal_string, from_i64, to_i64, usage_index_backup_extension, usage_index_backup_partial_path,
    usage_index_backup_path,
};
use codex_usage::parent::{
    candidate_is_usable, fork_is_covered, resolved_parent_snapshot, LineageQuery, LineageWalk,
    ParentCandidate,
};
use codex_usage::pricing::{
    canonical_model_name, current_pricing_basis, model_has_fast_multiplier, pricing_catalog_entry,
    CatalogModel, CatalogPeriod, PricingCatalog, PricingLookupFailure,
};
use codex_usage::report::{debug_cost_quality, period_scan_status, period_start_nanos, UsageScanStatus};
use codex_usage::rollout::RolloutScanState;
use codex_usage::tokens::TokenUsage;

fn day(value: &str) -> i32 {
    parse_ranking_day(value).unwrap()
}

fn catalog() -> PricingCatalog {
    PricingCatalog {
        basis: "openai-standard-2026-08".into(),
        models: vec![
            CatalogModel {
                names: vec!["gpt-5.6-sol".into(), "gpt-5.6".into()],
                periods: vec![
                    CatalogPeriod {
                        effective_from: day("2026-07-01"),
                        effective_until: Some(day("2026-08-05")),
                        has_fast_multiplier: false,
                        has_cache_write_price: true,
                        long_context_input_tokens_above: 272000,
                        long_context_is_neutral: true,
                        fast_long_context: None,
                    },
                    CatalogPeriod {
                        effective_from: day("2026-08-05"),
                        effective_until: None,
                        has_fast_multiplier: true,
                        has_cache_write_price: true,
                        long_context_input_tokens_above: 272000,
                        long_context_is_neutral: true,
                        fast_long_context: None,
                    },
                ],
            },
            CatalogModel {
                names: vec!["gpt-5.2".into()],
                periods: vec![CatalogPeriod {
                    effective_from: day("2026-01-01"),
                    effective_until: None,
                    has_fast_multiplier: false,
                    has_cache_write_price: true,
                    long_context_input_tokens_above: 272000,
                    long_context_is_neutral: true,
                    fast_long_context: None,
                }],
            },
        ],
    }
}

#[test]
fn ranking_days_are_utc_julian_days() {
    assert_eq!(day("1970-01-01"), 2_440_588);
    let late = parse_rollout_timestamp("2026-08-06T23:30:00-02:00").unwrap();
    assert_eq!(late.day, day("2026-08-07"));
    assert_eq!(utc_ranking_day(-1), 2_440_587);
    assert!(parse_ranking_day("2026-02-29").is_err());
    assert!(parse_ranking_day("2028-02-29").is_ok());
    assert_eq!(timestamp_ns("1970-01-01T00:00:01Z"), Ok(1_000_000_000));
}

#[test]
fn model_names_accept_provider_prefixes_and_dated_snapshots() {
    let catalog = catalog();
    assert_eq!(catalog.model("gpt-5.6"), Some(0));
    assert_eq!(catalog.model("openai/gpt-5.6-sol"), Some(0));
    assert_eq!(catalog.model("gpt-5.2-2026-03-01"), Some(1));
    assert_eq!(catalog.model("gpt-5.2-2026-02-30"), None);
    assert_eq!(catalog.model("gpt-9"), None);
    assert_eq!(canonical_model_name(&catalog, "openai/gpt-5.6"), Some("gpt-5.6-sol"));
}

#[test]
fn pricing_is_effective_dated_and_unknown_models_are_unavailable() {
    let catalog = catalog();
    assert_eq!(
        pricing_catalog_entry(&catalog, "gpt-5.6", day("2026-06-30")),
        Err(PricingLookupFailure::MissingApplicablePrice)
    );
    assert!(!pricing_catalog_entry(&catalog, "gpt-5.6", day("2026-08-04")).unwrap().has_fast_multiplier);
    assert!(pricing_catalog_entry(&catalog, "gpt-5.6", day("2026-08-05")).unwrap().has_fast_multiplier);
    assert_eq!(
        pricing_catalog_entry(&catalog, "unknown", day("2026-08-05")),
        Err(PricingLookupFailure::UnknownModel)
    );
    assert!(model_has_fast_multiplier(Some(&catalog), "gpt-5.6", day("2026-08-06")));
    assert!(!model_has_fast_multiplier(None, "gpt-5.6", day("2026-08-06")));
    assert_eq!(PricingLookupFailure::UnknownModel.as_reason(), "unknown_model");
    assert_eq!(current_pricing_basis(Some(&catalog)), Some("openai-standard-2026-08"));
    assert_eq!(current_pricing_basis(None), None);
}

#[test]
fn stored_integers_and_backup_names() {
    assert_eq!(to_i64(5), Ok(5));
    assert!(to_i64(u64::MAX).is_err());
    assert_eq!(from_i64(7), Ok(7));
    assert!(from_i64(-1).is_err());
    assert_eq!(decimal_string(-120), "-120");
    assert_eq!(decimal_string(i64::MIN), i64::MIN.to_string());
    assert_eq!(usage_index_backup_extension(8), "sqlite3.codex-usage-v8.backup");
    assert_eq!(
        usage_index_backup_path("/data/usage.sqlite3", 8),
        "/data/usage.sqlite3.codex-usage-v8.backup"
    );
    assert_eq!(
        usage_index_backup_partial_path("/data/usage.sqlite3", 8),
        "/data/usage.sqlite3.codex-usage-v8.backup.partial"
    );
}

#[test]
fn report_labels_and_period_status() {
    assert_eq!(debug_cost_quality(None), "unavailable");
    let start = period_start_nanos(day("2026-08-06"), 7);
    assert_eq!(start, parse_rollout_timestamp("2026-07-31T00:00:00Z").unwrap().unix_nanos);
    assert_eq!(
        period_scan_status(UsageScanStatus::Complete, Some(start), None, start, true),
        UsageScanStatus::Indexing
    );
    assert_eq!(
        period_scan_status(UsageScanStatus::Complete, Some(start - 1), Some(start), start, true),
        UsageScanStatus::Unavailable
    );
    assert_eq!(
        period_scan_status(UsageScanStatus::Indexing, Some(start), None, start, false),
        UsageScanStatus::Indexing
    );
    assert_eq!(
        period_scan_status(UsageScanStatus::Unavailable, None, None, start, true),
        UsageScanStatus::Complete
    );
}

fn cursor() -> FileCursor {
    FileCursor {
        identity: "dev:1".into(),
        size: 100,
        modified_ns: 5,
        parsed_offset: 100,
        parsed_prefix_anchor: None,
        completion_state: FileCompletionState::Complete,
        deferred_until_day: None,
        parser_version: ROLLOUT_PARSER_VERSION,
        parser_state: RolloutScanState::new(),
        accounting_ready: true,
    }
}

#[test]
fn a_replaced_or_rewritten_file_rebuilds_its_cursor() {
    let c = cursor();
    assert!(!cursor_requires_rebuild(&c, "dev:1", 120, 6));
    assert!(cursor_requires_rebuild(&c, "dev:2", 100, 5));
    assert!(cursor_requires_rebuild(&c, "dev:1", 100, 6));
    assert!(cursor_requires_rebuild(&c, "dev:1", 90, 6));
}

#[test]
fn chunks_are_framed_into_records() {
    let mut scan = FileScan {
        parsed_offset: 0,
        remaining_bytes: 1_000,
        parser_complete: true,
        discarding_overlong_line: false,
        deferred_until_day: None,
    };
    let mut state = RolloutScanState::new();
    assert_eq!(read_limit(1_000), 1_000);
    assert_eq!(frame_chunk(&mut scan, &mut state, b"\r\n"), Ok(ChunkStep::Consumed));
    assert_eq!(scan.parsed_offset, 2);
    assert_eq!(frame_chunk(&mut scan, &mut state, b"{}\r\n"), Ok(ChunkStep::Record { len: 2 }));
    assert_eq!(after_record(&mut scan, &mut state, 4, IndexLineOutcome::Processed(false)), Ok(true));
    assert_eq!(scan.parsed_offset, 6);
    assert!(!scan.parser_complete);
    assert_eq!(state.record_ordinal, 1);
    assert_eq!(frame_chunk(&mut scan, &mut state, b"{\"partial"), Ok(ChunkStep::Stop));
    assert_eq!(
        after_record(&mut scan, &mut state, 4, IndexLineOutcome::DeferredUntil(9)),
        Ok(false)
    );
    assert_eq!(scan_completion(&scan, 100), FileCompletionState::DeferredError);
}

#[test]
fn parent_candidates_must_be_settled_and_cover_the_fork() {
    let candidate = ParentCandidate {
        path: "/p".into(),
        identity: "dev:9".into(),
        size: 10,
        modified_ns: 3,
        parsed_offset: 10,
        parsed_prefix_anchor: None,
        completion_state: "complete".into(),
        parser_version: ROLLOUT_PARSER_VERSION,
        schema_supported: true,
        lineage_invalid: false,
        parser_error_seen: false,
        snapshot_timestamp_regressed: false,
    };
    assert!(candidate_is_usable(&candidate));
    assert!(fork_is_covered(1, 2, 5, true));
    assert!(!fork_is_covered(1, 2, 5, false));
    assert!(!fork_is_covered(6, 8, 5, true));
    let baseline = TokenUsage { input: 10, cached_input: 0, cache_write_input: 0, output: 5, reasoning_output: 0, total: 15 };
    let first = resolved_parent_snapshot(&candidate, 4, baseline).unwrap();
    let again = resolved_parent_snapshot(&candidate, 4, baseline).unwrap();
    let moved = resolved_parent_snapshot(&candidate, 5, baseline).unwrap();
    assert_eq!(first.dependency_key, again.dependency_key);
    assert_ne!(first.dependency_key, moved.dependency_key);
    let broken = TokenUsage { total: 16, ..baseline };
    assert!(resolved_parent_snapshot(&candidate, 4, broken).is_err());
}

#[test]
fn the_lineage_walk_rejects_cycles_and_follows_single_parents() {
    let mut walk = LineageWalk::new("/child", "/parent", Some("child-session".into()));
    assert!(matches!(walk.next(), LineageQuery::ParentOf(p) if p == "/parent"));
    assert!(matches!(walk.on_parent_session(None), LineageQuery::Acyclic(true)));
    assert!(matches!(
        walk.on_parent_session(Some("child-session".into())),
        LineageQuery::Acyclic(false)
    ));
    assert!(matches!(
        walk.on_parent_session(Some("grand".into())),
        LineageQuery::PathsOf(s) if s == "grand"
    ));
    assert!(matches!(walk.on_paths(vec!["/child".into()]), LineageQuery::Acyclic(false)));
    let mut ambiguous = LineageWalk::new("/child", "/parent", None);
    ambiguous.next();
    assert!(matches!(ambiguous.on_paths(vec!["/a".into(), "/b".into()]), LineageQuery::Acyclic(false)));
    assert!(matches!(ambiguous.on_paths(vec![]), LineageQuery::Acyclic(true)));
}

#[test]
fn ranking_days_are_always_utc() {
    let timestamp = parse_rollout_timestamp("2026-08-06T00:30:00+02:00").unwrap();
    assert_eq!(utc_ranking_day(timestamp.unix_nanos), day("2026-08-05"));
    assert_eq!(timestamp.day, day("2026-08-05"));
}

#[test]
fn codex_model_names_accept_provider_prefixes_and_dated_snapshots() {
    let catalog = catalog();
    let sol = catalog.model("gpt-5.6-sol");
    assert!(sol.is_some());
    assert_eq!(catalog.model("gpt-5.6"), sol);
    assert_eq!(catalog.model("openai/gpt-5.6-sol"), sol);
    assert_eq!(catalog.model("gpt-5.6-sol-2026-08-09"), sol);
    assert_eq!(catalog.model("gpt-5.6-unknown"), None);
}
