//! Summing the model-day rows a scan of one file produced into per-day
//! totals of the file: tokens observed, tokens priced, whether every
//! token of the day was priced, and how far the day's records reach.
use vstd::prelude::*;

use crate::index_line::{rows_view, ModelDayRow, RowView};

verus! {

/// What one scan adds to a day of a file.
#[derive(Clone, Copy, Debug, PartialEq, Eq, Structural)]
pub struct FileDayDelta {
    pub day: i32,
    pub observed_tokens: u64,
    pub priced_tokens: u64,
    /// Whether every row of the day was complete and priced.
    pub complete: bool,
    /// Unix nanoseconds of the latest record of the day.
    pub observed_through: i128,
    /// Unix nanoseconds of the latest priced record of the day.
    pub priced_observed_through: Option<i128>,
}

/// The position of the delta for `day`, if there is one.
pub open spec fn find_day(days: Seq<FileDayDelta>, day: i32) -> Option<int>
    decreases days.len(),
{
    if days.len() == 0 {
        None
    } else {
        match find_day(days.drop_last(), day) {
            Some(i) => Some(i),
            None => if days.last().day == day {
                Some(days.len() - 1)
            } else {
                None
            },
        }
    }
}

pub open spec fn max_i128(a: i128, b: i128) -> i128 {
    if a >= b {
        a
    } else {
        b
    }
}

/// A row keeps its cost detail when its day is in the detail window.
pub open spec fn row_is_priced(row: RowView, priced: bool, detail_cutoff: i32) -> bool {
    row.day >= detail_cutoff && priced
}

/// A day's delta with one more row: its tokens observed; when the row is
/// complete and priced, its tokens priced as well, else the day is no
/// longer complete. `None` when a count overflows.
pub open spec fn add_row(d: FileDayDelta, row: RowView, priced: bool) -> Option<FileDayDelta> {
    let observed = d.observed_tokens + row.usage.total;
    let priced_total = d.priced_tokens + row.usage.total;
    if observed > u64::MAX {
        None
    } else if row.complete && priced {
        if priced_total > u64::MAX {
            None
        } else {
            Some(
                FileDayDelta {
                    observed_tokens: observed as u64,
                    priced_tokens: priced_total as u64,
                    observed_through: max_i128(d.observed_through, row.observed_through),
                    priced_observed_through: Some(
                        match d.priced_observed_through {
                            Some(t) => max_i128(t, row.observed_through),
                            None => row.observed_through,
                        },
                    ),
                    ..d
                },
            )
        }
    } else {
        Some(
            FileDayDelta {
                observed_tokens: observed as u64,
                observed_through: max_i128(d.observed_through, row.observed_through),
                complete: false,
                ..d
            },
        )
    }
}

/// The empty delta a day starts from.
pub open spec fn fresh_day(row: RowView) -> FileDayDelta {
    FileDayDelta {
        day: row.day,
        observed_tokens: 0,
        priced_tokens: 0,
        complete: true,
        observed_through: row.observed_through,
        priced_observed_through: None,
    }
}

/// The per-day deltas after one more row: the row's day is updated in
/// place, or appended.
pub open spec fn day_step(days: Seq<FileDayDelta>, row: RowView, priced: bool) -> Option<
    Seq<FileDayDelta>,
> {
    match find_day(days, row.day) {
        Some(i) => match add_row(days[i], row, priced) {
            Some(d) => Some(days.update(i, d)),
            None => None,
        },
        None => match add_row(fresh_day(row), row, priced) {
            Some(d) => Some(days.push(d)),
            None => None,
        },
    }
}

/// The per-day deltas of a file's rows, in the order their days first
/// appear; `None` when a count overflows.
pub open spec fn day_fold(rows: Seq<RowView>, priced: Seq<bool>, detail_cutoff: i32) -> Option<
    Seq<FileDayDelta>,
>
    decreases rows.len(),
{
    if rows.len() == 0 {
        Some(Seq::empty())
    } else {
        match day_fold(rows.drop_last(), priced, detail_cutoff) {
            Some(days) => day_step(
                days,
                rows.last(),
                row_is_priced(rows.last(), priced[rows.len() - 1], detail_cutoff),
            ),
            None => None,
        }
    }
}

/// Priced tokens of a day never exceed its observed tokens.
pub open spec fn days_well_formed(days: Seq<FileDayDelta>) -> bool {
    forall|k: int| 0 <= k < days.len() ==> (#[trigger] days[k]).priced_tokens <= days[k].observed_tokens
}

fn find_day_exec(days: &Vec<FileDayDelta>, day: i32) -> (r: Option<usize>)
    ensures
        r matches Some(i) ==> find_day(days@, day) == Some(i as int) && i < days@.len(),
        r is None ==> find_day(days@, day) is None,
{
    let mut i: usize = 0;
    while i < days.len()
        invariant
            i <= days@.len(),
            find_day(days@.take(i as int), day) is None,
        decreases days@.len() - i,
    {
        assert(days@.take(i + 1).drop_last() =~= days@.take(i as int));
        if days[i].day == day {
            proof {
                lemma_find_day_prefix(days@, i + 1, day);
            }
            return Some(i);
        }
        i = i + 1;
    }
    assert(days@.take(i as int) =~= days@);
    None
}

proof fn lemma_find_day_prefix(days: Seq<FileDayDelta>, k: int, day: i32)
    requires
        0 <= k <= days.len(),
        find_day(days.take(k), day) is Some,
    ensures
        find_day(days, day) == find_day(days.take(k), day),
    decreases days.len() - k,
{
    if k < days.len() {
        assert(days.take(k + 1).drop_last() =~= days.take(k));
        lemma_find_day_prefix(days, k + 1, day);
    } else {
        assert(days.take(k) =~= days);
    }
}

fn add_row_exec(d: FileDayDelta, row: &ModelDayRow, priced: bool) -> (r: Option<FileDayDelta>)
    ensures
        r == add_row(d, row@, priced),
{
    let observed = match d.observed_tokens.checked_add(row.usage.total) {
        Some(v) => v,
        None => return None,
    };
    let observed_through = if d.observed_through >= row.observed_through {
        d.observed_through
    } else {
        row.observed_through
    };
    if row.complete && priced {
        let priced_tokens = match d.priced_tokens.checked_add(row.usage.total) {
            Some(v) => v,
            None => return None,
        };
        let priced_observed_through = match d.priced_observed_through {
            Some(t) => if t >= row.observed_through {
                t
            } else {
                row.observed_through
            },
            None => row.observed_through,
        };
        Some(
            FileDayDelta {
                observed_tokens: observed,
                priced_tokens,
                observed_through,
                priced_observed_through: Some(priced_observed_through),
                ..d
            },
        )
    } else {
        Some(FileDayDelta { observed_tokens: observed, observed_through, complete: false, ..d })
    }
}

/// Sums a file's model-day rows into per-day deltas. `priced[i]` says
/// whether row `i` got a cost; only rows in the detail window from
/// `detail_cutoff` on keep one. Fails when a count overflows.
pub fn file_day_deltas(rows: &[ModelDayRow], priced: &[bool], detail_cutoff: i32) -> (r: Result<
    Vec<FileDayDelta>,
    (),
>)
    requires
        priced@.len() == rows@.len(),
    ensures
        match day_fold(rows_view(rows@), priced@, detail_cutoff) {
            Some(days) => r matches Ok(v) && v@ == days,
            None => r is Err,
        },
        r matches Ok(v) ==> days_well_formed(v@),
{
    let ghost all = rows_view(rows@);
    let mut days: Vec<FileDayDelta> = Vec::new();
    let mut i: usize = 0;
    while i < rows.len()
        invariant
            i <= rows@.len(),
            priced@.len() == rows@.len(),
            all == rows_view(rows@),
            day_fold(all.take(i as int), priced@, detail_cutoff) == Some(days@),
            days_well_formed(days@),
        decreases rows@.len() - i,
    {
        assert(all.take(i + 1).drop_last() =~= all.take(i as int));
        assert(all.take(i + 1).last() == rows@[i as int]@);
        let row = &rows[i];
        let is_priced = row.day >= detail_cutoff && priced[i];
        let current = match find_day_exec(&days, row.day) {
            Some(k) => (Some(k), days[k]),
            None => (
                None,
                FileDayDelta {
                    day: row.day,
                    observed_tokens: 0,
                    priced_tokens: 0,
                    complete: true,
                    observed_through: row.observed_through,
                    priced_observed_through: None,
                },
            ),
        };
        let updated = match add_row_exec(current.1, row, is_priced) {
            Some(d) => d,
            None => {
                proof {
                    lemma_fold_stays_failed(all, priced@, detail_cutoff, i as int + 1);
                }
                return Err(());
            },
        };
        match current.0 {
            Some(k) => {
                days.set(k, updated);
            },
            None => {
                days.push(updated);
            },
        }
        i = i + 1;
    }
    assert(all.take(i as int) =~= all);
    Ok(days)
}

proof fn lemma_fold_stays_failed(rows: Seq<RowView>, priced: Seq<bool>, detail_cutoff: i32, k: int)
    requires
        0 <= k <= rows.len(),
        day_fold(rows.take(k), priced, detail_cutoff) is None,
    ensures
        day_fold(rows, priced, detail_cutoff) is None,
    decreases rows.len() - k,
{
    if k < rows.len() {
        assert(rows.take(k + 1).drop_last() =~= rows.take(k));
        lemma_fold_stays_failed(rows, priced, detail_cutoff, k + 1);
    } else {
        assert(rows.take(k) =~= rows);
    }
}

/// A row keeps its cost detail exactly when its day is in the detail
/// window.
pub fn retains_cost_detail(day: i32, detail_cutoff: i32) -> (r: bool)
    ensures
        r == (day >= detail_cutoff),
{
    day >= detail_cutoff
}

/// The tokens of the rows on `day`.
pub open spec fn rows_total_on(rows: Seq<RowView>, day: i32) -> int
    decreases rows.len(),
{
    if rows.len() == 0 {
        0
    } else {
        rows_total_on(rows.drop_last(), day) + if rows.last().day == day {
            rows.last().usage.total as int
        } else {
            0
        }
    }
}

proof fn lemma_find_day(days: Seq<FileDayDelta>, day: i32)
    ensures
        find_day(days, day) matches Some(i) ==> 0 <= i < days.len() && days[i].day == day,
        find_day(days, day) is None ==> forall|k: int| 0 <= k < days.len() ==> days[k].day != day,
    decreases days.len(),
{
    if days.len() > 0 {
        lemma_find_day(days.drop_last(), day);
        if find_day(days.drop_last(), day) is None {
            assert forall|k: int| 0 <= k < days.len() - 1 implies days[k].day != day by {
                assert(days[k] == days.drop_last()[k]);
            }
        } else {
            let i = find_day(days.drop_last(), day).unwrap();
            assert(days[i] == days.drop_last()[i]);
        }
    }
}

/// Each day of a file appears once among the deltas, and its observed
/// tokens are exactly the tokens of the file's rows on that day; a day
/// without a delta has no tokens.
pub proof fn law_day_totals_sum_their_rows(rows: Seq<RowView>, priced: Seq<bool>, detail_cutoff: i32)
    ensures
        day_fold(rows, priced, detail_cutoff) matches Some(days) ==> {
            &&& forall|k: int, j: int|
                0 <= k < j < days.len() ==> #[trigger] days[k].day != #[trigger] days[j].day
            &&& forall|k: int|
                0 <= k < days.len() ==> #[trigger] days[k].observed_tokens == rows_total_on(
                    rows,
                    days[k].day,
                )
            &&& forall|d: i32| find_day(days, d) is None ==> #[trigger] rows_total_on(rows, d) == 0
        },
    decreases rows.len(),
{
    if rows.len() > 0 {
        let prev_rows = rows.drop_last();
        law_day_totals_sum_their_rows(prev_rows, priced, detail_cutoff);
        match day_fold(prev_rows, priced, detail_cutoff) {
            None => {},
            Some(prev) => {
                let row = rows.last();
                let p = row_is_priced(row, priced[rows.len() - 1], detail_cutoff);
                lemma_find_day(prev, row.day);
                match day_fold(rows, priced, detail_cutoff) {
                    None => {},
                    Some(days) => {
                        assert forall|d: i32| d != row.day implies rows_total_on(rows, d)
                            == rows_total_on(prev_rows, d) by {}
                        match find_day(prev, row.day) {
                            Some(i) => {
                                let nd = add_row(prev[i], row, p).unwrap();
                                assert(days == prev.update(i, nd));
                                assert forall|k: int| 0 <= k < days.len() implies #[trigger] days[k].observed_tokens
                                    == rows_total_on(rows, days[k].day) by {
                                    if k != i {
                                        assert(days[k] == prev[k]);
                                        assert(prev[k].day != row.day);
                                    }
                                }
                                assert forall|d: i32| find_day(days, d) is None implies #[trigger] rows_total_on(rows, d) == 0 by {
                                    lemma_find_day(days, d);
                                    lemma_find_day(prev, d);
                                    if d == row.day {
                                        assert(days[i].day == d);
                                    } else if find_day(prev, d) is Some {
                                        let j = find_day(prev, d).unwrap();
                                        assert(days[j].day == d);
                                    }
                                }
                            },
                            None => {
                                let nd = add_row(fresh_day(row), row, p).unwrap();
                                assert(days == prev.push(nd));
                                assert forall|k: int| 0 <= k < days.len() implies #[trigger] days[k].observed_tokens
                                    == rows_total_on(rows, days[k].day) by {
                                    if k < prev.len() {
                                        assert(days[k] == prev[k]);
                                        assert(prev[k].day != row.day);
                                    } else {
                                        assert(find_day(prev, row.day) is None);
                                        assert(rows_total_on(prev_rows, row.day) == 0);
                                    }
                                }
                                assert forall|d: i32| find_day(days, d) is None implies #[trigger] rows_total_on(rows, d) == 0 by {
                                    lemma_find_day(days, d);
                                    lemma_find_day(prev, d);
                                    if d == row.day {
                                        assert(days[prev.len() as int].day == d);
                                    } else if find_day(prev, d) is Some {
                                        let j = find_day(prev, d).unwrap();
                                        assert(days[j].day == d);
                                    }
                                }
                                assert forall|k: int, j: int| 0 <= k < j < days.len() implies #[trigger] days[k].day
                                    != #[trigger] days[j].day by {
                                    if j == prev.len() {
                                        assert(days[k] == prev[k]);
                                    } else {
                                        assert(days[k] == prev[k] && days[j] == prev[j]);
                                    }
                                }
                            },
                        }
                    },
                }
            },
        }
    }
}

/// The tokens of the rows on `day` that keep a price: complete rows in the
/// detail window that got a cost.
pub open spec fn rows_priced_total_on(
    rows: Seq<RowView>,
    priced: Seq<bool>,
    detail_cutoff: i32,
    day: i32,
) -> int
    decreases rows.len(),
{
    if rows.len() == 0 {
        0
    } else {
        let last = rows.last();
        rows_priced_total_on(rows.drop_last(), priced, detail_cutoff, day) + if last.day == day
            && last.complete && last.day >= detail_cutoff && priced[rows.len() - 1] {
            last.usage.total as int
        } else {
            0
        }
    }
}

/// Every row on `day` is complete, in the detail window and priced.
pub open spec fn rows_fully_priced_on(
    rows: Seq<RowView>,
    priced: Seq<bool>,
    detail_cutoff: i32,
    day: i32,
) -> bool {
    forall|i: int|
        0 <= i < rows.len() && (#[trigger] rows[i]).day == day ==> rows[i].complete && rows[i].day
            >= detail_cutoff && priced[i]
}

/// A day's priced tokens are exactly the tokens of its complete rows that
/// kept a price (a row without a cost, outside the detail window or
/// incomplete adds to the observed tokens only), and a day is complete
/// exactly when every one of its rows is complete and priced.
pub proof fn law_day_prices_count_only_priced_rows(
    rows: Seq<RowView>,
    priced: Seq<bool>,
    detail_cutoff: i32,
)
    requires
        priced.len() == rows.len(),
    ensures
        day_fold(rows, priced, detail_cutoff) matches Some(days) ==> forall|k: int|
            0 <= k < days.len() ==> {
                &&& (#[trigger] days[k]).priced_tokens == rows_priced_total_on(
                    rows,
                    priced,
                    detail_cutoff,
                    days[k].day,
                )
                &&& days[k].complete == rows_fully_priced_on(rows, priced, detail_cutoff, days[k].day)
            },
    decreases rows.len(),
{
    law_day_prices_count_only_priced_rows_prefix(rows, priced, detail_cutoff);
}

proof fn lemma_other_day_unchanged(rows: Seq<RowView>, priced: Seq<bool>, detail_cutoff: i32, d: i32)
    requires
        rows.len() > 0,
        priced.len() >= rows.len(),
        d != rows.last().day,
    ensures
        rows_priced_total_on(rows, priced, detail_cutoff, d) == rows_priced_total_on(
            rows.drop_last(),
            priced,
            detail_cutoff,
            d,
        ),
        rows_fully_priced_on(rows, priced, detail_cutoff, d) == rows_fully_priced_on(
            rows.drop_last(),
            priced,
            detail_cutoff,
            d,
        ),
{
    let prev_rows = rows.drop_last();
    let n = rows.len() - 1;
    if rows_fully_priced_on(prev_rows, priced, detail_cutoff, d) {
        assert forall|i: int| 0 <= i < rows.len() && (#[trigger] rows[i]).day == d implies rows[i].complete
            && rows[i].day >= detail_cutoff && priced[i] by {
            assert(i < n);
            assert(prev_rows[i] == rows[i]);
        }
    }
    if rows_fully_priced_on(rows, priced, detail_cutoff, d) {
        assert forall|i: int| 0 <= i < prev_rows.len() && (#[trigger] prev_rows[i]).day == d implies prev_rows[i].complete
            && prev_rows[i].day >= detail_cutoff && priced[i] by {
            assert(prev_rows[i] == rows[i]);
        }
    }
}

proof fn lemma_row_day_step(rows: Seq<RowView>, priced: Seq<bool>, detail_cutoff: i32)
    requires
        rows.len() > 0,
        priced.len() >= rows.len(),
    ensures
        ({
            let n = rows.len() - 1;
            let row = rows.last();
            let kept = row.complete && row.day >= detail_cutoff && priced[n];
            &&& rows_priced_total_on(rows, priced, detail_cutoff, row.day) == rows_priced_total_on(
                rows.drop_last(),
                priced,
                detail_cutoff,
                row.day,
            ) + if kept {
                row.usage.total as int
            } else {
                0
            }
            &&& rows_fully_priced_on(rows, priced, detail_cutoff, row.day) == (rows_fully_priced_on(
                rows.drop_last(),
                priced,
                detail_cutoff,
                row.day,
            ) && kept)
        }),
{
    let prev_rows = rows.drop_last();
    let n = rows.len() - 1;
    let row = rows.last();
    let kept = row.complete && row.day >= detail_cutoff && priced[n];
    if rows_fully_priced_on(rows, priced, detail_cutoff, row.day) {
        assert(rows[n] == row);
        assert forall|i: int| 0 <= i < prev_rows.len() && (#[trigger] prev_rows[i]).day == row.day implies prev_rows[i].complete
            && prev_rows[i].day >= detail_cutoff && priced[i] by {
            assert(rows[i] == prev_rows[i]);
        }
    }
    if rows_fully_priced_on(prev_rows, priced, detail_cutoff, row.day) && kept {
        assert forall|i: int| 0 <= i < rows.len() && (#[trigger] rows[i]).day == row.day implies rows[i].complete
            && rows[i].day >= detail_cutoff && priced[i] by {
            if i < n {
                assert(prev_rows[i] == rows[i]);
            }
        }
    }
}

#[verifier::spinoff_prover]
proof fn law_day_prices_count_only_priced_rows_prefix(
    rows: Seq<RowView>,
    priced: Seq<bool>,
    detail_cutoff: i32,
)
    requires
        priced.len() >= rows.len(),
    ensures
        day_fold(rows, priced, detail_cutoff) matches Some(days) ==> forall|k: int|
            0 <= k < days.len() ==> {
                &&& (#[trigger] days[k]).priced_tokens == rows_priced_total_on(
                    rows,
                    priced,
                    detail_cutoff,
                    days[k].day,
                )
                &&& days[k].complete == rows_fully_priced_on(rows, priced, detail_cutoff, days[k].day)
            },
    decreases rows.len(),
{
    if rows.len() > 0 {
        let prev_rows = rows.drop_last();
        let n = rows.len() - 1;
        law_day_prices_count_only_priced_rows_prefix(prev_rows, priced, detail_cutoff);
        law_day_totals_sum_their_rows(prev_rows, priced, detail_cutoff);
        if day_fold(prev_rows, priced, detail_cutoff) is Some && day_fold(rows, priced, detail_cutoff) is Some {
            let prev = day_fold(prev_rows, priced, detail_cutoff).unwrap();
            let days = day_fold(rows, priced, detail_cutoff).unwrap();
            let row = rows.last();
            let p = row_is_priced(row, priced[n], detail_cutoff);
            lemma_find_day(prev, row.day);
            lemma_row_day_step(rows, priced, detail_cutoff);
            if find_day(prev, row.day) is Some {
                let i = find_day(prev, row.day).unwrap();
                assert(days == prev.update(i, add_row(prev[i], row, p).unwrap()));
                assert forall|k: int| 0 <= k < days.len() implies {
                    &&& (#[trigger] days[k]).priced_tokens == rows_priced_total_on(
                        rows,
                        priced,
                        detail_cutoff,
                        days[k].day,
                    )
                    &&& days[k].complete == rows_fully_priced_on(rows, priced, detail_cutoff, days[k].day)
                } by {
                    if k != i {
                        assert(days[k] == prev[k]);
                        assert(prev[k].day != prev[i].day);
                        lemma_other_day_unchanged(rows, priced, detail_cutoff, prev[k].day);
                    }
                }
            } else {
                assert(days == prev.push(add_row(fresh_day(row), row, p).unwrap()));
                lemma_no_day_no_priced_rows(prev_rows, priced, detail_cutoff, row.day);
                assert forall|k: int| 0 <= k < days.len() implies {
                    &&& (#[trigger] days[k]).priced_tokens == rows_priced_total_on(
                        rows,
                        priced,
                        detail_cutoff,
                        days[k].day,
                    )
                    &&& days[k].complete == rows_fully_priced_on(rows, priced, detail_cutoff, days[k].day)
                } by {
                    if k < prev.len() {
                        assert(days[k] == prev[k]);
                        assert(prev[k].day != row.day);
                        lemma_other_day_unchanged(rows, priced, detail_cutoff, prev[k].day);
                    }
                }
            }
        }
    }
}

/// A day with no delta has no rows: nothing priced, and every (no) row on
/// it fully priced.
proof fn lemma_no_day_no_priced_rows(rows: Seq<RowView>, priced: Seq<bool>, detail_cutoff: i32, day: i32)
    requires
        priced.len() >= rows.len(),
        day_fold(rows, priced, detail_cutoff) matches Some(days) && find_day(days, day) is None,
    ensures
        rows_priced_total_on(rows, priced, detail_cutoff, day) == 0,
        rows_fully_priced_on(rows, priced, detail_cutoff, day),
        forall|i: int| 0 <= i < rows.len() ==> (#[trigger] rows[i]).day != day,
    decreases rows.len(),
{
    if rows.len() > 0 {
        let prev_rows = rows.drop_last();
        let days = day_fold(rows, priced, detail_cutoff).unwrap();
        let prev = day_fold(prev_rows, priced, detail_cutoff).unwrap();
        let row = rows.last();
        let p = row_is_priced(row, priced[rows.len() - 1], detail_cutoff);
        lemma_find_day(prev, day);
        lemma_find_day(days, day);
        lemma_find_day(prev, row.day);
        match find_day(prev, row.day) {
            Some(i) => {
                assert(days == prev.update(i, add_row(prev[i], row, p).unwrap()));
                assert(days[i].day == row.day);
                assert(find_day(prev, day) is None) by {
                    if find_day(prev, day) is Some {
                        let j = find_day(prev, day).unwrap();
                        assert(days[j].day == day);
                    }
                }
            },
            None => {
                assert(days == prev.push(add_row(fresh_day(row), row, p).unwrap()));
                assert(days[prev.len() as int].day == row.day);
                assert(find_day(prev, day) is None) by {
                    if find_day(prev, day) is Some {
                        let j = find_day(prev, day).unwrap();
                        assert(days[j].day == day);
                    }
                }
            },
        }
        lemma_no_day_no_priced_rows(prev_rows, priced, detail_cutoff, day);
        assert(row.day != day);
        assert forall|i: int| 0 <= i < rows.len() implies (#[trigger] rows[i]).day != day by {
            if i < prev_rows.len() {
                assert(prev_rows[i] == rows[i]);
            }
        }
    }
}

} // verus!
