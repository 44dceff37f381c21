use codex_usage::response_usage::{EncodedResponseCursor, ResponseCursor, ResponseRecord};
use codex_usage::tokens::TokenUsage;
use serde_json::Value;
use time::Date;

fn day_text(day: i32) -> String {
    Date::from_julian_day(day).unwrap().to_string()
}

fn usage_json(u: &TokenUsage) -> Value {
    let mut map = serde_json::Map::new();
    for (key, value) in [
        ("input_tokens", u.input),
        ("cached_input_tokens", u.cached_input),
        ("cache_write_input_tokens", u.cache_write_input),
        ("output_tokens", u.output),
        ("reasoning_output_tokens", u.reasoning_output),
        ("total_tokens", u.total),
    ] {
        map.insert(key.into(), Value::from(value));
    }
    Value::Object(map)
}

/// Saves a cursor as the provider keeps it and reads it back, as a restart
/// does.
fn restart(cursor: &ResponseCursor) -> ResponseCursor {
    let encoded = EncodedResponseCursor {
        response_id: cursor.response_id.clone(),
        total: cursor.total,
        usage: cursor.usage,
        incomplete_days: cursor.incomplete_days().into_iter().map(day_text).collect(),
        observed_day: cursor.observed_day.map(day_text),
    };
    let mut map = serde_json::Map::new();
    map.insert("response_id".into(), Value::from(encoded.response_id.clone()));
    map.insert("total".into(), usage_json(&encoded.total));
    map.insert("usage".into(), usage_json(&encoded.usage));
    map.insert(
        "incomplete_days".into(),
        Value::from(encoded.incomplete_days.clone()),
    );
    map.insert(
        "observed_day".into(),
        encoded.observed_day.clone().map_or(Value::Null, Value::from),
    );
    let saved = serde_json::to_string(&Value::Object(map)).unwrap();
    ResponseCursor::decode(saved.len(), encoded).unwrap()
}

fn encoded(response_id: &str, total: TokenUsage, usage: TokenUsage) -> EncodedResponseCursor {
    EncodedResponseCursor {
        response_id: response_id.into(),
        total,
        usage,
        incomplete_days: Vec::new(),
        observed_day: None,
    }
}

fn usage(tokens: u64) -> TokenUsage {
    TokenUsage {
        input: tokens,
        total: tokens,
        ..TokenUsage::default()
    }
}

fn record(id: &str, tokens: u64, total: u64) -> ResponseRecord {
    ResponseRecord {
        thread_id: "task".into(),
        turn_id: "turn".into(),
        response_id: id.into(),
        usage: usage(tokens),
        turn_total: usage(total),
        thread_token_usage: usage(total),
    }
}

#[test]
fn gaps_keep_only_observed_usage_and_mark_coverage_partial() {
    let mut cursor = None;
    record("one", 100, 1100).observe(&mut cursor, None).unwrap();
    let next = record("three", 100, 1500)
        .observe(&mut cursor, None)
        .unwrap();
    assert_eq!(next.tokens.total, 100);
    assert!(!next.complete);
    assert!(
        record("four", 100, 1600)
            .observe(&mut cursor, None)
            .unwrap()
            .complete
    );
}

#[test]
fn legacy_transition_requires_matching_counters() {
    let mut exact = None;
    let known = record("one", 100, 1100)
        .observe(&mut exact, Some(usage(1000)))
        .unwrap();
    assert!(known.complete);
    assert_eq!(known.tokens.total, 100);
    let mut ambiguous = None;
    let unknown = record("one", 100, 1150)
        .observe(&mut ambiguous, Some(usage(1000)))
        .unwrap();
    assert!(!unknown.complete);
    assert_eq!(unknown.tokens.total, 0);
    assert_eq!(
        record("two", 50, 1200)
            .observe(&mut ambiguous, Some(usage(1100)))
            .unwrap()
            .tokens
            .total,
        50
    );
}

#[test]
fn saved_cursor_rejects_conflicting_duplicates_and_skips_old_responses() {
    let mut cursor = None;
    assert_eq!(
        record("one", 100, 1100).observe(&mut cursor, None).unwrap().tokens.total,
        100
    );
    let mut cursor = Some(restart(cursor.as_ref().unwrap()));
    assert_eq!(
        record("one", 100, 1100).observe(&mut cursor, None).unwrap().tokens.total,
        0
    );
    assert!(record("one", 99, 1100).observe(&mut cursor, None).is_err());
    assert_eq!(
        record("older", 50, 1000).observe(&mut cursor, None).unwrap().tokens.total,
        0
    );
    assert_eq!(
        record("two", 100, 1200).observe(&mut cursor, None).unwrap().tokens.total,
        100
    );
}

#[test]
fn many_responses_remain_exact_across_restarts_and_duplicate_notifications() {
    let mut cursor: Option<ResponseCursor> = None;
    let mut cumulative = 10_000;
    let mut counted = 0;
    let mut expected = 0;
    for index in 0..1000u64 {
        let tokens = (index * 37 % 97) + 1;
        cumulative += tokens;
        expected += tokens;
        let next = record(&format!("response-{index}"), tokens, cumulative);
        counted += next.observe(&mut cursor, None).unwrap().tokens.total;
        if index % 13 == 0 {
            counted += next.observe(&mut cursor, None).unwrap().tokens.total;
        }
        if index % 17 == 0 {
            cursor = Some(restart(cursor.as_ref().unwrap()));
        }
        assert_eq!(counted, expected);
    }
}

#[test]
fn usage_beyond_the_counter_growth_fails_closed() {
    let mut cursor = None;
    record("one", 100, 1100).observe(&mut cursor, None).unwrap();
    assert!(record("two", 300, 1200).observe(&mut cursor, None).is_err());
}

#[test]
fn inconsistent_record_counters_are_rejected() {
    let good = record("one", 100, 1100);
    assert!(good.validated().is_ok());
    let mut bad = record("one", 100, 1100);
    bad.usage.total = 101;
    assert!(bad.validated().is_err());
    let mut blank = record("one", 100, 1100);
    blank.thread_id = "   ".into();
    assert!(blank.validated().is_err());
}

#[test]
fn malformed_response_arithmetic_and_saved_state_fail_closed() {
    let mut wrong_total = usage(100);
    wrong_total.total = 0;
    assert!(ResponseCursor::decode(50, encoded("one", wrong_total, usage(100))).is_err());
    assert!(ResponseCursor::decode(50, encoded("one", usage(1100), usage(100))).is_ok());
    assert!(ResponseCursor::decode(5000, encoded("one", usage(1100), usage(100))).is_err());
    assert!(ResponseCursor::decode(50, encoded("one", usage(100), usage(1100))).is_err());
    assert!(ResponseCursor::decode(50, encoded("   ", usage(1100), usage(100))).is_err());
    let mut bad_day = encoded("one", usage(1100), usage(100));
    bad_day.incomplete_days = vec!["2026-02-30".into()];
    assert!(ResponseCursor::decode(50, bad_day).is_err());
    let mut too_many = encoded("one", usage(1100), usage(100));
    too_many.incomplete_days = (0..61).map(|offset| day_text(2_461_000 + offset)).collect();
    assert!(ResponseCursor::decode(50, too_many).is_err());

    assert!(record("one", 100, 100).validated().is_ok());
    let mut malformed = record("one", 100, 100);
    malformed.usage.total = 101;
    assert!(malformed.validated().is_err());
}
