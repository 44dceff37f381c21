use codex_usage::account::{
    account_usage_from_buckets, merge_cached_account_usage, AccountUsageObservation,
    CachedAccountUsageObservation, DailyUsageBucket,
};
use codex_usage::clock::{parse_ranking_day, parse_rollout_timestamp};
use std::collections::BTreeMap;

fn day(value: &str) -> i32 {
    parse_ranking_day(value).unwrap()
}

fn at(value: &str) -> i128 {
    parse_rollout_timestamp(value).unwrap().unix_nanos
}

fn bucket(date: &str, tokens: u64) -> DailyUsageBucket {
    DailyUsageBucket { start_date: date.into(), tokens }
}

fn observation(days: &[(&str, u64)]) -> AccountUsageObservation {
    account_usage_from_buckets(Some(days.iter().map(|(d, t)| bucket(d, *t)).collect())).unwrap()
}

#[test]
fn account_usage_accepts_only_unique_utc_daily_buckets() {
    let observation = observation(&[("2026-08-05", 120), ("2026-08-06", 340)]);
    assert_eq!(observation.day_count(), 2);
    assert_eq!(observation.daily_tokens.get(&day("2026-08-06")), Some(&340));
}

#[test]
fn account_usage_rejects_duplicate_days_and_invalid_dates() {
    let duplicate = vec![bucket("2026-08-06", 1), bucket("2026-08-06", 2)];
    assert!(account_usage_from_buckets(Some(duplicate)).is_err());
    assert!(account_usage_from_buckets(Some(vec![bucket("2026-02-30", 1)])).is_err());
    assert!(account_usage_from_buckets(Some(vec![bucket("2026-8-06", 1)])).is_err());
}

#[test]
fn a_null_bucket_list_is_available_without_days() {
    let observation = account_usage_from_buckets(None).unwrap();
    assert_eq!(observation.day_count(), 0);
}

#[test]
fn account_cache_merges_sparse_and_empty_refreshes_by_day() {
    let first_at = at("2026-08-06T12:00:00Z");
    let first = merge_cached_account_usage(
        None,
        observation(&[("2026-08-05", 100), ("2026-08-06", 200)]),
        first_at,
    );
    assert_eq!(first.observation.day_count(), 2);
    assert_eq!(first.observed_at, first_at);

    let second_at = at("2026-08-06T13:00:00Z");
    let sparse = merge_cached_account_usage(
        Some(first),
        observation(&[("2026-08-06", 250)]),
        second_at,
    );
    assert_eq!(sparse.observation.daily_tokens.get(&day("2026-08-05")), Some(&100));
    assert_eq!(sparse.observation.daily_tokens.get(&day("2026-08-06")), Some(&250));
    assert_eq!(sparse.observed_at_by_day.get(&day("2026-08-05")), Some(&first_at));
    assert_eq!(sparse.observed_at_by_day.get(&day("2026-08-06")), Some(&second_at));

    let third_at = at("2026-08-06T14:00:00Z");
    let empty = merge_cached_account_usage(Some(sparse), observation(&[]), third_at);
    assert_eq!(empty.observation.day_count(), 2);
    assert_eq!(empty.observed_at, third_at);
}

#[test]
fn account_cache_keeps_the_exact_sixty_day_utc_window() {
    let now = at("2026-08-06T00:30:00Z");
    let cached = CachedAccountUsageObservation {
        observation: AccountUsageObservation {
            daily_tokens: BTreeMap::from([
                (day("2026-06-07"), 1),
                (day("2026-06-08"), 2),
                (day("2026-08-07"), 3),
            ]),
        },
        observed_at_by_day: BTreeMap::new(),
        observed_at: now,
    };
    let merged = merge_cached_account_usage(
        Some(cached),
        observation(&[("2026-06-07", 9), ("2026-08-06", 4)]),
        now,
    );
    let kept: Vec<_> = merged.observation.daily_tokens.keys().copied().collect();
    assert_eq!(kept, vec![day("2026-06-08"), day("2026-08-06")]);
    assert_eq!(merged.observed_at_by_day.len(), 1);
}
