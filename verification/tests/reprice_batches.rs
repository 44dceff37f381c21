use codex_usage::reprice::{
    reprice_batch_end, reprice_batch_start, reprice_cursor_text, row_reprice, RowReprice,
};
use codex_usage::text::parse_i64;

#[test]
fn integers_parse_as_from_str_does() {
    assert_eq!(parse_i64("0"), Some(0));
    assert_eq!(parse_i64("+17"), Some(17));
    assert_eq!(parse_i64("-17"), Some(-17));
    assert_eq!(parse_i64("0009"), Some(9));
    assert_eq!(parse_i64("9223372036854775807"), Some(i64::MAX));
    assert_eq!(parse_i64("-9223372036854775808"), Some(i64::MIN));
    assert_eq!(parse_i64("9223372036854775808"), None);
    assert_eq!(parse_i64("-9223372036854775809"), None);
    assert_eq!(parse_i64(""), None);
    assert_eq!(parse_i64("-"), None);
    assert_eq!(parse_i64("+"), None);
    assert_eq!(parse_i64(" 1"), None);
    assert_eq!(parse_i64("1e3"), None);
    assert_eq!(parse_i64("٣"), None);
    for value in [0_i64, 1, -1, 42, i64::MAX, i64::MIN, 1_000_000_007] {
        assert_eq!(parse_i64(&value.to_string()), value.to_string().parse::<i64>().ok());
    }
}

#[test]
fn repricing_starts_where_it_stopped() {
    assert_eq!(reprice_batch_start(Some("fp"), None, None, "fp", 0), Ok(None));
    assert_eq!(reprice_batch_start(Some("old"), None, None, "fp", 0), Err(()));
    assert_eq!(reprice_batch_start(None, None, Some("40"), "fp", 10), Ok(Some(0)));
    assert_eq!(reprice_batch_start(None, Some("old"), Some("40"), "fp", 10), Ok(Some(0)));
    assert_eq!(reprice_batch_start(None, Some("fp"), Some("40"), "fp", 10), Ok(Some(40)));
    assert_eq!(reprice_batch_start(None, Some("fp"), None, "fp", 10), Ok(Some(0)));
    assert_eq!(reprice_batch_start(None, Some("fp"), Some("forty"), "fp", 10), Err(()));
}

#[test]
fn stored_reprice_cursor_reads_back() {
    for cursor in [0_i64, 7, 123_456, i64::MAX, -5] {
        let text = reprice_cursor_text(cursor);
        assert_eq!(text, cursor.to_string());
        assert_eq!(reprice_batch_start(None, Some("fp"), Some(&text), "fp", 1), Ok(Some(cursor)));
    }
}

#[test]
fn rows_are_repriced_only_when_their_rule_changed() {
    assert_eq!(row_reprice(None, "rule", Some("basis"), "basis"), RowReprice::Reprice);
    assert_eq!(row_reprice(Some("old"), "rule", Some("basis"), "basis"), RowReprice::Reprice);
    assert_eq!(row_reprice(Some("rule"), "rule", Some("old"), "basis"), RowReprice::Rebase);
    assert_eq!(row_reprice(Some("rule"), "rule", None, "basis"), RowReprice::Rebase);
    assert_eq!(row_reprice(Some("rule"), "rule", Some("basis"), "basis"), RowReprice::Keep);
}

#[test]
fn a_short_batch_completes_the_repricing() {
    assert_eq!(reprice_batch_end(3, 10, Some(99), 40), (true, 99));
    assert_eq!(reprice_batch_end(10, 10, Some(99), 40), (false, 99));
    assert_eq!(reprice_batch_end(0, 10, None, 40), (true, 40));
}
