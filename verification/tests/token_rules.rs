use codex_usage::cli::is_supported_cli_version;
use codex_usage::files::rollout_work_priority;
use codex_usage::tokens::{
    checked_add_usage, cumulative_delta, subtract_parent_snapshot, usage_is_at_or_below,
    BillableTokenUsage, TokenUsage,
};

fn usage(input: u64, cached: u64, output: u64, reasoning: u64) -> TokenUsage {
    TokenUsage {
        input,
        cached_input: cached,
        cache_write_input: 0,
        output,
        reasoning_output: reasoning,
        total: input + output,
    }
}

#[test]
fn a_pending_required_parent_precedes_its_pending_child() {
    let mut work = [
        ("child", true, true, false, 3_i64),
        ("parent", true, true, true, 1_i64),
        ("settled-parent", true, false, true, 4_i64),
    ];
    work.sort_by_key(|entry| rollout_work_priority(entry.1, entry.2, entry.3, entry.4));

    assert_eq!(
        work.map(|entry| entry.0),
        ["parent", "child", "settled-parent"]
    );
}

#[test]
fn cumulative_delta_does_not_double_count_cached_or_reasoning_tokens() {
    let previous = TokenUsage {
        input: 1_000,
        cached_input: 400,
        output: 200,
        reasoning_output: 80,
        total: 1_200,
        ..TokenUsage::default()
    };
    let current = TokenUsage {
        input: 1_700,
        cached_input: 700,
        output: 500,
        reasoning_output: 200,
        total: 2_200,
        ..TokenUsage::default()
    };

    let delta = current.delta_from(previous).expect("monotonic delta");
    assert_eq!(delta.total, 1_000);
    assert_eq!(
        delta.billable().unwrap(),
        BillableTokenUsage {
            standard_input: 400,
            cached_input: 300,
            cache_write_input: 0,
            output: 300,
        }
    );
}

#[test]
fn parser_accepts_only_the_reviewed_codex_cli_version_range() {
    assert!(is_supported_cli_version("0.130.0-alpha.5"));
    assert!(is_supported_cli_version("0.145.0"));
    assert!(is_supported_cli_version("0.146.0-alpha.9.2"));
    assert!(is_supported_cli_version("0.147.0-alpha.6.5"));
    assert!(is_supported_cli_version("0.148.0-alpha.21"));
    assert!(is_supported_cli_version("0.149.1"));
    assert!(is_supported_cli_version("0.150.0-alpha.8"));
    assert!(is_supported_cli_version("0.151.0-alpha.7.2"));
    assert!(!is_supported_cli_version("0.129.9"));
    assert!(!is_supported_cli_version("0.152.0"));
    assert!(!is_supported_cli_version("1.0.0"));
    assert!(!is_supported_cli_version("private value"));
}

#[test]
fn invalid_token_arithmetic_fails_closed() {
    let cached_exceeds_input = TokenUsage {
        input: 10,
        cached_input: 11,
        output: 2,
        total: 12,
        ..TokenUsage::default()
    };
    let reasoning_exceeds_output = TokenUsage {
        input: 10,
        output: 2,
        reasoning_output: 3,
        total: 12,
        ..TokenUsage::default()
    };

    assert!(cached_exceeds_input.billable().is_err());
    assert!(reasoning_exceeds_output.billable().is_err());
}

#[test]
fn delta_then_add_restores_the_counter() {
    let previous = usage(1_000, 400, 200, 80);
    let current = usage(1_700, 700, 500, 200);
    let delta = current.delta_from(previous).unwrap();
    assert_eq!(checked_add_usage(previous, delta), Ok(current));
}

#[test]
fn shrinking_counter_has_no_delta() {
    let previous = usage(1_000, 400, 200, 80);
    let current = usage(900, 400, 300, 80);
    assert!(current.delta_from(previous).is_err());
    assert!(!usage_is_at_or_below(previous, current));
}

#[test]
fn canonical_last_normalizes_the_total() {
    let reported = TokenUsage { total: 5, ..usage(100, 10, 20, 5) };
    let normalized = reported.canonical_last().unwrap();
    assert_eq!(normalized.total, 120);
    assert_eq!(normalized.input, 100);
}

#[test]
fn checked_add_usage_rejects_overflow() {
    let big = TokenUsage {
        input: u64::MAX - 1,
        cached_input: 0,
        cache_write_input: 0,
        output: 1,
        reasoning_output: 0,
        total: u64::MAX,
    };
    assert!(checked_add_usage(big, usage(1, 0, 0, 0)).is_err());
}

#[test]
fn parent_subtraction_saturates_each_component() {
    let current = usage(1_000, 100, 300, 50);
    let baseline = usage(400, 300, 100, 80);
    let adjusted = subtract_parent_snapshot(current, baseline).unwrap();
    assert_eq!(adjusted.input, 600);
    assert_eq!(adjusted.cached_input, 0);
    assert_eq!(adjusted.output, 200);
    assert_eq!(adjusted.reasoning_output, 0);
    assert_eq!(adjusted.total, 800);
}

#[test]
fn strong_reset_restarts_only_on_a_matching_last_request() {
    let previous = usage(1_000, 0, 200, 0);
    let restarted = usage(50, 0, 10, 0);
    assert!(cumulative_delta(restarted, Some(restarted), previous, false).is_err());
    assert_eq!(
        cumulative_delta(restarted, Some(restarted), previous, true),
        Ok(restarted)
    );
    assert!(cumulative_delta(restarted, None, previous, true).is_err());
}

#[test]
fn newer_files_rank_first_among_equal_work() {
    assert!(rollout_work_priority(true, false, false, 10) < rollout_work_priority(true, false, false, 5));
    assert!(rollout_work_priority(true, false, false, 1) < rollout_work_priority(false, false, false, 10));
}
