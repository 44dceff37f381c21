use codex_usage::file_days::{file_day_deltas, retains_cost_detail, FileDayDelta};
use codex_usage::files::PricingMode;
use codex_usage::index_line::ModelDayRow;
use codex_usage::report::{attribute_day_pricing, day_pricing_basis};
use codex_usage::tokens::TokenUsage;

fn row(day: i32, model: &str, total: u64, complete: bool, observed_through: i128) -> ModelDayRow {
    ModelDayRow {
        day,
        model: model.into(),
        pricing_input_tokens: total,
        pricing_mode: PricingMode::Standard,
        usage: TokenUsage {
            input: total,
            cached_input: 0,
            cache_write_input: 0,
            output: 0,
            reasoning_output: 0,
            total,
        },
        complete,
        observed_through,
    }
}

#[test]
fn rows_sum_into_their_days() {
    let rows = vec![
        row(10, "a", 100, true, 5),
        row(11, "a", 7, true, 9),
        row(10, "b", 50, true, 3),
        row(10, "c", 1, false, 8),
    ];
    let days = file_day_deltas(&rows, &[true, true, true, true], 10).unwrap();
    assert_eq!(
        days,
        vec![
            FileDayDelta {
                day: 10,
                observed_tokens: 151,
                priced_tokens: 150,
                complete: false,
                observed_through: 8,
                priced_observed_through: Some(5),
            },
            FileDayDelta {
                day: 11,
                observed_tokens: 7,
                priced_tokens: 7,
                complete: true,
                observed_through: 9,
                priced_observed_through: Some(9),
            },
        ]
    );
}

#[test]
fn rows_before_the_detail_window_are_not_priced() {
    let rows = vec![row(9, "a", 100, true, 5), row(10, "a", 4, true, 6)];
    let days = file_day_deltas(&rows, &[true, false], 10).unwrap();
    assert_eq!(days[0].priced_tokens, 0);
    assert!(!days[0].complete);
    assert_eq!(days[0].priced_observed_through, None);
    assert_eq!(days[1].priced_tokens, 0);
    assert!(!days[1].complete);
    assert!(retains_cost_detail(10, 10));
    assert!(!retains_cost_detail(9, 10));
}

#[test]
fn overflowing_day_totals_fail() {
    let rows = vec![row(10, "a", u64::MAX, true, 1), row(10, "b", 1, true, 2)];
    assert_eq!(file_day_deltas(&rows, &[true, true], 0), Err(()));
    assert_eq!(file_day_deltas(&[], &[], 0), Ok(vec![]));
}

#[test]
fn days_priced_under_several_bases_keep_no_price() {
    let basis = |value: &str| Some(value.to_string());
    assert_eq!(day_pricing_basis(&[basis("a"), basis("a")]), basis("a"));
    assert_eq!(day_pricing_basis(&[basis("a"), basis("b")]), None);
    assert_eq!(day_pricing_basis(&[basis("a"), None]), None);
    assert_eq!(day_pricing_basis(&[]), None);
    assert_eq!(attribute_day_pricing(100, true, Some(7), false), (0, false, None, false));
    assert_eq!(attribute_day_pricing(100, true, Some(7), true), (100, true, Some(7), true));
    assert_eq!(attribute_day_pricing(0, true, None, false), (0, true, None, true));
}
