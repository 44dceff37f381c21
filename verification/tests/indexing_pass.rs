use codex_usage::file_scan::{
    dependency_query, marker_parent_query, settle_accounting, settle_discovery,
    stored_dependency_action, FileCursor, SettleEffect, StoredDependencyAction,
};
use codex_usage::files::{FileCompletionState, ROLLOUT_PARSER_VERSION};
use codex_usage::index_line::{changed_fast_turns, FastTurn};
use codex_usage::parent::ResolvedParentSnapshot;
use codex_usage::prefix_anchor::{prefix_anchor, prefix_anchor_starts};
use codex_usage::report::UsageScanStatus;
use codex_usage::rollout::{LineageMode, RolloutScanState};
use codex_usage::scan_pass::{
    capped_budget, file_allowance, file_work, pass_status, pass_stop_reason, remaining_after_file,
    retention_cutoffs, ScanBudget,
};
use codex_usage::tokens::TokenUsage;

fn fnv(bytes: &[u8]) -> u64 {
    bytes.iter().fold(0xcbf29ce484222325_u64, |hash, byte| {
        (hash ^ u64::from(*byte)).wrapping_mul(0x100000001b3)
    })
}

#[test]
fn prefix_anchor_samples_the_start_quarters_and_end() {
    assert!(prefix_anchor_starts(0).is_empty());
    assert_eq!(prefix_anchor_starts(10), vec![0]);
    assert_eq!(prefix_anchor_starts(5000), vec![0, 1250, 2500, 3750, 3976]);
    assert_eq!(prefix_anchor(0, &vec![], &vec![]), None);
}

#[test]
fn prefix_anchor_hashes_positions_lengths_and_bytes() {
    let sample = b"0123456789".to_vec();
    let mut bytes = Vec::new();
    bytes.extend(0_u64.to_le_bytes());
    bytes.extend(10_u64.to_le_bytes());
    bytes.extend(&sample);
    let expected = format!("fnv1a64:{:016x}:10", fnv(&bytes));
    assert_eq!(prefix_anchor(10, &vec![0], &vec![sample]), Some(expected));
}

fn turn(id: &str, model: Option<&str>) -> FastTurn {
    FastTurn { turn_id: id.into(), model: model.map(str::to_owned) }
}

#[test]
fn changed_fast_evidence_names_each_differing_turn_once() {
    let stored = vec![turn("a", Some("m")), turn("b", None), turn("c", Some("x"))];
    let fresh = vec![turn("a", Some("m")), turn("b", Some("n")), turn("d", None)];
    let mut changed = changed_fast_turns(&stored, &fresh);
    changed.sort();
    assert_eq!(changed, vec!["b", "c", "d"]);
    assert!(changed_fast_turns(&stored, &stored).is_empty());
}

fn cursor(state: RolloutScanState, completion: FileCompletionState) -> FileCursor {
    FileCursor {
        identity: "dev:1".into(),
        size: 100,
        modified_ns: 1,
        parsed_offset: 100,
        parsed_prefix_anchor: None,
        completion_state: completion,
        deferred_until_day: None,
        parser_version: ROLLOUT_PARSER_VERSION,
        parser_state: state,
        accounting_ready: false,
    }
}

#[test]
fn a_discovered_rollout_without_an_ancestor_restarts_as_independent() {
    let mut state = RolloutScanState::new();
    state.lineage_mode = LineageMode::Discovering;
    state.record_ordinal = 12;
    let mut c = cursor(state, FileCompletionState::Complete);
    let effect = settle_discovery(&mut c, true, None, None);
    assert_eq!(effect, SettleEffect { clear_rows: true, replace_existing_usage: false });
    assert_eq!(c.parser_state.lineage_mode, LineageMode::Independent);
    assert_eq!(c.parsed_offset, 0);
    assert_eq!(c.parser_state.record_ordinal, 0);
    assert_eq!(c.completion_state, FileCompletionState::Indexing);
}

#[test]
fn a_discovered_rollout_with_parser_errors_is_unresolved() {
    let mut state = RolloutScanState::new();
    state.lineage_mode = LineageMode::Discovering;
    let mut c = cursor(state, FileCompletionState::Complete);
    let effect = settle_discovery(&mut c, false, None, None);
    assert_eq!(effect, SettleEffect { clear_rows: true, replace_existing_usage: true });
    assert_eq!(c.parser_state.lineage_mode, LineageMode::Unresolved);
    assert!(c.parser_state.exclude_usage);
    assert_eq!(c.completion_state, FileCompletionState::Complete);
}

#[test]
fn an_embedded_ancestor_resolves_against_its_parent_snapshot() {
    let mut state = RolloutScanState::new();
    state.lineage_mode = LineageMode::Discovering;
    state.embedded_ancestor_seen = true;
    state.parent_session_id = Some("parent".into());
    state.fork_timestamp_ns = Some(5);
    let baseline = TokenUsage { input: 10, cached_input: 0, cache_write_input: 0, output: 5, reasoning_output: 0, total: 15 };
    let resolved = ResolvedParentSnapshot { baseline, dependency_key: "fnv1a64:00".into() };
    let mut c = cursor(state, FileCompletionState::Complete);
    assert!(marker_parent_query(&c.parser_state).is_none());
    settle_discovery(&mut c, true, None, Some(&resolved));
    assert_eq!(c.parser_state.lineage_mode, LineageMode::ParentResolved);
    assert_eq!(c.parser_state.parent_baseline, Some(baseline));
    assert_eq!(c.parser_state.parent_dependency_key.as_deref(), Some("fnv1a64:00"));
    assert_eq!(dependency_query(&c.parser_state, c.completion_state), Some(("parent".to_string(), 5)));
    assert_eq!(
        stored_dependency_action(&c.parser_state, Some(&resolved)),
        StoredDependencyAction::Keep
    );
    let moved = ResolvedParentSnapshot { baseline, dependency_key: "fnv1a64:01".into() };
    assert_eq!(
        stored_dependency_action(&c.parser_state, Some(&moved)),
        StoredDependencyAction::ResetDependents
    );
}

#[test]
fn a_complete_root_is_accounted_and_a_stale_dependency_is_not() {
    let mut state = RolloutScanState::new();
    state.lineage_mode = LineageMode::Root;
    let mut root = cursor(state, FileCompletionState::Complete);
    let effect = settle_accounting(&mut root, true, None);
    assert_eq!(effect, SettleEffect { clear_rows: false, replace_existing_usage: false });
    assert!(root.accounting_ready);

    let mut child_state = RolloutScanState::new();
    child_state.lineage_mode = LineageMode::ParentResolved;
    child_state.parent_session_id = Some("parent".into());
    child_state.fork_timestamp_ns = Some(5);
    child_state.parent_dependency_key = Some("old".into());
    let mut child = cursor(child_state, FileCompletionState::Complete);
    let effect = settle_accounting(&mut child, true, None);
    assert_eq!(effect, SettleEffect { clear_rows: true, replace_existing_usage: true });
    assert_eq!(child.parser_state.lineage_mode, LineageMode::Unresolved);
    assert!(!child.accounting_ready);
}

#[test]
fn pass_budgets_windows_and_outcomes() {
    let capped = capped_budget(ScanBudget {
        max_bytes: u64::MAX,
        max_file_bytes: 10,
        max_discovery_millis: 5,
        max_parse_millis: u128::MAX,
    });
    assert_eq!(capped.max_bytes, 512 * 1024 * 1024);
    assert_eq!(capped.max_file_bytes, 10);
    assert_eq!(capped.max_parse_millis, 2_000);
    assert_eq!(retention_cutoffs(100), (41, 71));
    assert_eq!(file_allowance(100, 30), 30);
    assert_eq!(remaining_after_file(100, 30, 10), 80);
    assert_eq!(pass_status(false, true, 1), UsageScanStatus::Unavailable);
    assert_eq!(pass_status(false, false, 0), UsageScanStatus::Indexing);
    assert_eq!(pass_stop_reason(false, UsageScanStatus::Indexing, 0, 2, true, 5), "parser_errors");
    assert_eq!(pass_stop_reason(false, UsageScanStatus::Indexing, 1, 0, false, 0), "bytes");
    assert_eq!(file_work(None, "dev:1", 10, 5, 10, false, 0), (false, false));
    assert_eq!(file_work(None, "dev:1", 10, 5, 10, true, 0), (true, true));
}
