//! Independent response accounting. Each response record carries its own
//! usage and the thread's cumulative counter; a cursor remembers the last
//! counted response so that duplicates and replays count nothing.
use vstd::prelude::*;
use vstd::utf8::encode_utf8;

use crate::cli::{normalized_session_id, spec_normalized_session_id};
use crate::clock::{parse_ranking_day, spec_parse_ranking_day, MAX_JULIAN_DAY, MIN_JULIAN_DAY};
use crate::rollout::opt_str_eq;
use crate::text::str_eq;
use crate::tokens::{
    law_add_then_delta_recovers, spec_checked_add_usage, spec_delta_from, spec_usage_is_at_or_below,
    usage_is_at_or_below, valid_usage, zero_usage,
    TokenUsage,
};

verus! {

broadcast use vstd::string::group_string_axioms;

/// The most incomplete days a saved cursor may carry.
pub const MAX_CURSOR_INCOMPLETE_DAYS: usize = 60;

/// The longest saved cursor that is decoded.
pub const MAX_CURSOR_ENCODED_BYTES: usize = 4096;

/// The last counted response of a thread.
#[derive(Clone, Debug)]
pub struct ResponseCursor {
    pub response_id: String,
    pub total: TokenUsage,
    pub usage: TokenUsage,
    /// Julian days whose coverage is partial, strictly increasing.
    pub incomplete_days: Vec<i32>,
    /// The latest Julian day a response was observed on.
    pub observed_day: Option<i32>,
}

pub open spec fn strictly_increasing(days: Seq<i32>) -> bool {
    forall|i: int, j: int| 0 <= i < j < days.len() ==> days[i] < days[j]
}

pub open spec fn in_day_range(d: int) -> bool {
    MIN_JULIAN_DAY <= d <= MAX_JULIAN_DAY
}

impl ResponseCursor {
    /// The incomplete days form a sorted set of representable days.
    pub open spec fn well_formed(&self) -> bool {
        &&& strictly_increasing(self.incomplete_days@)
        &&& forall|i: int|
            0 <= i < self.incomplete_days@.len() ==> in_day_range(
                #[trigger] self.incomplete_days@[i] as int,
            )
        &&& self.observed_day matches Some(d) ==> in_day_range(d as int)
    }
}

/// A saved cursor as its text decodes, before its checks.
#[derive(Clone, Debug)]
pub struct EncodedResponseCursor {
    pub response_id: String,
    pub total: TokenUsage,
    pub usage: TokenUsage,
    /// The distinct stored day texts, in ascending order.
    pub incomplete_days: Vec<String>,
    pub observed_day: Option<String>,
}

/// One `token_usage_record` as it decodes.
#[derive(Clone, Debug)]
pub struct ResponseRecord {
    pub thread_id: String,
    pub turn_id: String,
    pub response_id: String,
    pub usage: TokenUsage,
    pub turn_total: TokenUsage,
    pub thread_token_usage: TokenUsage,
}

/// The tokens a record adds and whether the thread's coverage stayed
/// complete.
#[derive(Clone, Copy, Debug, PartialEq, Eq, Structural)]
pub struct Observation {
    pub tokens: TokenUsage,
    pub complete: bool,
}

/// A record whose counters are consistent: its usage fits inside both the
/// turn total and the thread total, and its identifiers are well formed.
pub open spec fn spec_record_is_valid(r: ResponseRecord) -> bool {
    &&& valid_usage(r.usage)
    &&& valid_usage(r.thread_token_usage)
    &&& valid_usage(r.turn_total)
    &&& spec_delta_from(r.turn_total, r.usage) is Ok
    &&& spec_delta_from(r.thread_token_usage, r.usage) is Ok
    &&& spec_normalized_session_id(Some(r.thread_id@)) is Some
    &&& spec_normalized_session_id(Some(r.turn_id@)) is Some
    &&& spec_normalized_session_id(Some(r.response_id@)) is Some
}

fn id_is_normal(value: &String) -> (r: bool)
    ensures
        r == spec_normalized_session_id(Some(value@)) is Some,
{
    normalized_session_id(Some(value.clone())).is_some()
}

/// The new cursor after counting `record`, keeping the coverage days of the
/// previous one.
pub open spec fn advanced_cursor(record: ResponseRecord, previous: Option<ResponseCursor>) -> (
    Seq<char>,
    TokenUsage,
    TokenUsage,
    Seq<i32>,
    Option<i32>,
) {
    (
        record.response_id@,
        record.thread_token_usage,
        record.usage,
        match previous {
            Some(c) => c.incomplete_days@,
            None => Seq::empty(),
        },
        match previous {
            Some(c) => c.observed_day,
            None => None,
        },
    )
}

pub open spec fn cursor_parts(c: ResponseCursor) -> (
    Seq<char>,
    TokenUsage,
    TokenUsage,
    Seq<i32>,
    Option<i32>,
) {
    (c.response_id@, c.total, c.usage, c.incomplete_days@, c.observed_day)
}

pub open spec fn zero_observation(complete: bool) -> Observation {
    Observation { tokens: zero_usage(), complete }
}

/// What observing `record` returns, and whether the cursor advances to it.
/// A repeated response must repeat its counters and counts nothing; an
/// older response counts nothing; a newer one counts its own usage, which
/// must fit inside the thread counter's growth. A gap in the stream marks
/// coverage partial. Without a cursor, a legacy counter hands over only
/// when the thread counter grew by exactly this response.
pub open spec fn spec_observe(
    record: ResponseRecord,
    cursor: Option<ResponseCursor>,
    legacy: Option<TokenUsage>,
) -> (Result<Observation, ()>, bool) {
    let total = record.thread_token_usage;
    match cursor {
        Some(previous) => if record.response_id@ == previous.response_id@ {
            if total != previous.total || record.usage != previous.usage {
                (Err(()), false)
            } else {
                (Ok(zero_observation(true)), false)
            }
        } else if spec_usage_is_at_or_below(total, previous.total) {
            (Ok(zero_observation(true)), false)
        } else {
            match spec_delta_from(total, previous.total) {
                Err(_) => (Err(()), false),
                Ok(delta) => if !spec_usage_is_at_or_below(record.usage, delta) {
                    (Err(()), false)
                } else {
                    (Ok(Observation { tokens: record.usage, complete: delta == record.usage }), true)
                },
            }
        },
        None => match legacy {
            Some(previous) => if spec_delta_from(total, previous) != Ok::<TokenUsage, ()>(
                record.usage,
            ) {
                (Ok(zero_observation(false)), true)
            } else {
                (Ok(Observation { tokens: record.usage, complete: true }), true)
            },
            None => (Ok(Observation { tokens: record.usage, complete: true }), true),
        },
    }
}

impl ResponseRecord {
    /// Accepts a decoded record only when its counters and identifiers are
    /// consistent.
    pub fn validated(self) -> (r: Result<Self, ()>)
        ensures
            r is Ok <==> spec_record_is_valid(self),
            r matches Ok(v) ==> v == self,
    {
        self.usage.validate()?;
        self.thread_token_usage.validate()?;
        self.turn_total.validate()?;
        self.turn_total.delta_from(self.usage)?;
        self.thread_token_usage.delta_from(self.usage)?;
        if !id_is_normal(&self.thread_id) || !id_is_normal(&self.turn_id) || !id_is_normal(
            &self.response_id,
        ) {
            return Err(());
        }
        Ok(self)
    }

    pub fn thread_id(&self) -> (r: &str)
        ensures
            r@ == self.thread_id@,
    {
        self.thread_id.as_str()
    }

    pub fn turn_id(&self) -> (r: &str)
        ensures
            r@ == self.turn_id@,
    {
        self.turn_id.as_str()
    }

    /// Counts this response against the thread's cursor.
    pub fn observe(&self, cursor: &mut Option<ResponseCursor>, legacy: Option<TokenUsage>) -> (r:
        Result<Observation, ()>)
        ensures
            r == spec_observe(*self, *old(cursor), legacy).0,
            spec_observe(*self, *old(cursor), legacy).1 ==> (*final(cursor) matches Some(c)
                && cursor_parts(c) == advanced_cursor(*self, *old(cursor))),
            !spec_observe(*self, *old(cursor), legacy).1 ==> *final(cursor) == *old(cursor),
    {
        let total = self.thread_token_usage;
        let mut complete = true;
        let (incomplete_days, observed_day) = match cursor {
            Some(c) => (c.incomplete_days.clone(), c.observed_day),
            None => (Vec::new(), None),
        };
        let counted = match cursor {
            Some(previous) => {
                if str_eq(self.response_id.as_str(), previous.response_id.as_str()) {
                    if total != previous.total || self.usage != previous.usage {
                        return Err(());
                    }
                    return Ok(Observation { tokens: TokenUsage::zero(), complete: true });
                }
                if usage_is_at_or_below(total, previous.total) {
                    return Ok(Observation { tokens: TokenUsage::zero(), complete: true });
                }
                let delta = total.delta_from(previous.total)?;
                if !usage_is_at_or_below(self.usage, delta) {
                    return Err(());
                }
                complete = delta == self.usage;
                true
            },
            None => match legacy {
                Some(previous) => {
                    let matches = match total.delta_from(previous) {
                        Ok(delta) => delta == self.usage,
                        Err(()) => false,
                    };
                    matches
                },
                None => true,
            },
        };
        *cursor = Some(
            ResponseCursor {
                response_id: self.response_id.clone(),
                total,
                usage: self.usage,
                incomplete_days,
                observed_day,
            },
        );
        if !counted {
            return Ok(Observation { tokens: TokenUsage::zero(), complete: false });
        }
        Ok(Observation { tokens: self.usage, complete })
    }
}

/// Observing the same response twice in a row counts it once: the second
/// observation counts nothing and leaves the cursor as it was.
pub proof fn law_duplicate_response_counts_nothing(record: ResponseRecord, cursor: ResponseCursor)
    requires
        cursor_parts(cursor).0 == record.response_id@,
        cursor.total == record.thread_token_usage,
        cursor.usage == record.usage,
    ensures
        spec_observe(record, Some(cursor), None).0 == Ok::<Observation, ()>(
            zero_observation(true),
        ),
        !spec_observe(record, Some(cursor), None).1,
{
}

/// A counted response never adds more than the thread counter grew, and a
/// complete observation adds exactly that growth, so the cursor's total is
/// the previous total plus the counted tokens.
pub proof fn law_counted_tokens_match_counter_growth(
    record: ResponseRecord,
    cursor: ResponseCursor,
    legacy: Option<TokenUsage>,
)
    requires
        spec_observe(record, Some(cursor), legacy).1,
    ensures
        spec_observe(record, Some(cursor), legacy).0 is Ok,
        spec_usage_is_at_or_below(
            spec_observe(record, Some(cursor), legacy).0->Ok_0.tokens,
            spec_delta_from(record.thread_token_usage, cursor.total)->Ok_0,
        ),
        spec_observe(record, Some(cursor), legacy).0->Ok_0.complete
            ==> crate::tokens::spec_checked_add_usage(
            cursor.total,
            spec_observe(record, Some(cursor), legacy).0->Ok_0.tokens,
        ) == Ok::<TokenUsage, ()>(record.thread_token_usage),
{
    let delta = spec_delta_from(record.thread_token_usage, cursor.total)->Ok_0;
    crate::tokens::law_delta_then_add_restores(record.thread_token_usage, cursor.total);
}

/// An observation never fails without a cursor: the first response of a
/// thread is always accepted.
pub proof fn law_first_response_is_accepted(record: ResponseRecord, legacy: Option<TokenUsage>)
    ensures
        spec_observe(record, None, legacy).0 is Ok,
        spec_observe(record, None, legacy).1,
{
}

/// The sum of the usage totals of the first `upto` responses.
pub open spec fn usage_totals(records: Seq<ResponseRecord>, upto: int) -> int
    decreases upto,
{
    if upto <= 0 {
        0
    } else {
        usage_totals(records, upto - 1) + records[upto - 1].usage.total
    }
}

/// A stream of responses of one thread: each is consistent and counts some
/// tokens, no two share an id, and each thread total is the previous one
/// grown by exactly the response's usage.
#[verifier::opaque]
pub open spec fn stream_is_consistent(records: Seq<ResponseRecord>) -> bool {
    &&& forall|j: int|
        0 <= j < records.len() ==> spec_record_is_valid(#[trigger] records[j])
            && records[j].usage.total > 0
    &&& forall|i: int, j: int|
        0 <= i < j < records.len() ==> (#[trigger] records[i]).response_id@ != (
        #[trigger] records[j]).response_id@
    &&& forall|j: int|
        0 < j < records.len() ==> spec_checked_add_usage(
            records[j - 1].thread_token_usage,
            (#[trigger] records[j]).usage,
        ) == Ok::<TokenUsage, ()>(records[j].thread_token_usage)
}

/// The order responses are observed in: from the first, each observation
/// repeats the previous response (a duplicate notification) or takes the
/// next one.
pub open spec fn observations_follow_stream(n: int, events: Seq<int>) -> bool {
    &&& events.len() > 0
    &&& events[0] == 0
    &&& forall|k: int| 0 <= k < events.len() ==> 0 <= #[trigger] events[k] < n
    &&& forall|k: int|
        0 < k < events.len() ==> #[trigger] events[k] == events[k - 1] || events[k] == events[k
            - 1] + 1
}

/// A cursor that stands for the state after `record`: its response id and
/// counters are the record's (as the cursor left by observing it, or that
/// cursor saved and decoded again after a restart).
pub open spec fn cursor_after(c: ResponseCursor, record: ResponseRecord) -> bool {
    &&& c.response_id@ == record.response_id@
    &&& c.total == record.thread_token_usage
    &&& c.usage == record.usage
}

pub open spec fn handed_cursor(cursors: Seq<ResponseCursor>, k: int) -> Option<ResponseCursor> {
    if k == 0 {
        None
    } else {
        Some(cursors[k])
    }
}

#[verifier::opaque]
pub open spec fn observation_at(
    records: Seq<ResponseRecord>,
    events: Seq<int>,
    cursors: Seq<ResponseCursor>,
    k: int,
) -> (Result<Observation, ()>, bool) {
    spec_observe(records[events[k]], handed_cursor(cursors, k), None)
}

/// The tokens counted by the first `k` observations.
pub open spec fn counted_through(
    records: Seq<ResponseRecord>,
    events: Seq<int>,
    cursors: Seq<ResponseCursor>,
    k: int,
) -> int
    decreases k,
{
    if k <= 0 {
        0
    } else {
        counted_through(records, events, cursors, k - 1) + observation_at(
            records,
            events,
            cursors,
            k - 1,
        ).0->Ok_0.tokens.total
    }
}

proof fn lemma_next_response_counts_its_usage(prev: ResponseRecord, next: ResponseRecord, c: ResponseCursor)
    requires
        spec_record_is_valid(prev),
        spec_record_is_valid(next),
        next.usage.total > 0,
        prev.response_id@ != next.response_id@,
        spec_checked_add_usage(prev.thread_token_usage, next.usage) == Ok::<TokenUsage, ()>(
            next.thread_token_usage,
        ),
        cursor_after(c, prev),
    ensures
        spec_observe(next, Some(c), None) == (
            Ok::<Observation, ()>(Observation { tokens: next.usage, complete: true }),
            true,
        ),
{
    law_add_then_delta_recovers(prev.thread_token_usage, next.usage);
    assert(!spec_usage_is_at_or_below(next.thread_token_usage, prev.thread_token_usage));
}

/// Every token of a response stream is counted exactly once: observing the
/// responses in order, each once or twice in a row, and handing each call
/// the cursor the previous one left (or that cursor saved and decoded after
/// a restart), every call succeeds, and the tokens counted add up to the
/// usage of the responses seen, with no loss and no double count.
pub proof fn law_stream_counts_every_token_once(
    records: Seq<ResponseRecord>,
    events: Seq<int>,
    cursors: Seq<ResponseCursor>,
)
    requires
        stream_is_consistent(records),
        observations_follow_stream(records.len() as int, events),
        cursors.len() == events.len(),
        forall|k: int| 0 < k < events.len() ==> cursor_after(#[trigger] cursors[k], records[events[k - 1]]),
    ensures
        forall|k: int| 0 <= k < events.len() ==> (#[trigger] observation_at(records, events, cursors, k)).0 is Ok,
        counted_through(records, events, cursors, events.len() as int) == usage_totals(
            records,
            events[events.len() - 1] + 1,
        ),
{
    lemma_stream_prefix(records, events, cursors, events.len() as int);
}

/// What one observation of the stream counts: the response's usage when
/// it is new, nothing when it repeats the previous one.
proof fn lemma_stream_event(
    records: Seq<ResponseRecord>,
    events: Seq<int>,
    cursors: Seq<ResponseCursor>,
    k: int,
)
    requires
        stream_is_consistent(records),
        observations_follow_stream(records.len() as int, events),
        cursors.len() == events.len(),
        forall|i: int| 0 < i < events.len() ==> cursor_after(#[trigger] cursors[i], records[events[i - 1]]),
        0 <= k < events.len(),
    ensures
        observation_at(records, events, cursors, k).0 is Ok,
        observation_at(records, events, cursors, k).0->Ok_0.tokens.total == if k == 0 || events[k]
            != events[k - 1] {
            records[events[k]].usage.total as int
        } else {
            0int
        },
{
    reveal(observation_at);
    reveal(stream_is_consistent);
    let r = records[events[k]];
    assert(spec_record_is_valid(r));
    if k > 0 {
        let p = records[events[k - 1]];
        assert(spec_record_is_valid(p));
        assert(cursor_after(cursors[k], p));
        if events[k] != events[k - 1] {
            assert(events[k] == events[k - 1] + 1);
            let j = events[k];
            assert(records[j - 1].response_id@ != records[j].response_id@);
            assert(spec_checked_add_usage(records[j - 1].thread_token_usage, records[j].usage)
                == Ok::<TokenUsage, ()>(records[j].thread_token_usage));
            lemma_next_response_counts_its_usage(p, r, cursors[k]);
        }
    }
}

#[verifier::spinoff_prover]
proof fn lemma_stream_prefix(
    records: Seq<ResponseRecord>,
    events: Seq<int>,
    cursors: Seq<ResponseCursor>,
    n: int,
)
    requires
        stream_is_consistent(records),
        observations_follow_stream(records.len() as int, events),
        cursors.len() == events.len(),
        forall|k: int| 0 < k < events.len() ==> cursor_after(#[trigger] cursors[k], records[events[k - 1]]),
        1 <= n <= events.len(),
    ensures
        forall|k: int| 0 <= k < n ==> (#[trigger] observation_at(records, events, cursors, k)).0 is Ok,
        counted_through(records, events, cursors, n) == usage_totals(records, events[n - 1] + 1),
    decreases n,
{
    let k = n - 1;
    lemma_stream_event(records, events, cursors, k);
    assert(counted_through(records, events, cursors, n) == counted_through(records, events, cursors, k)
        + observation_at(records, events, cursors, k).0->Ok_0.tokens.total);
    if k == 0 {
        assert(events[0] == 0);
        assert(usage_totals(records, 1) == usage_totals(records, 0) + records[0].usage.total);
    } else {
        lemma_stream_prefix(records, events, cursors, k);
        if events[k] != events[k - 1] {
            assert(events[k] == events[k - 1] + 1);
            assert(usage_totals(records, events[k] + 1) == usage_totals(records, events[k])
                + records[events[k]].usage.total);
        }
        assert forall|i: int| 0 <= i < n implies (#[trigger] observation_at(records, events, cursors, i)).0 is Ok by {
            if i < k {
                assert(observation_at(records, events, cursors, i).0 is Ok);
            }
        }
    }
}

/// The first day whose coverage a partial observation on `day` marks: the
/// day after the last observation at the earliest, but never before the
/// retention cutoff.
pub open spec fn first_missing_day(previous: Option<i32>, day: i32, cutoff: i32) -> int {
    let from = match previous {
        Some(p) => if p < day {
            p as int
        } else {
            day as int
        },
        None => day as int,
    };
    if from < cutoff {
        cutoff as int
    } else {
        from
    }
}

/// The incomplete days after recording an observation: days before the
/// cutoff are dropped, and a partial observation marks every day from the
/// last observed one through `day`.
pub open spec fn recorded_incomplete_day(
    old_days: Seq<i32>,
    previous: Option<i32>,
    day: i32,
    cutoff: i32,
    complete: bool,
    d: int,
) -> bool {
    ||| (old_days.contains(d as i32) && d >= cutoff && in_day_range(d))
    ||| (!complete && first_missing_day(previous, day, cutoff) <= d <= day)
}

pub open spec fn later_day(previous: Option<i32>, day: i32) -> i32 {
    match previous {
        Some(p) => if p > day {
            p
        } else {
            day
        },
        None => day,
    }
}

fn keep_from_cutoff(days: &Vec<i32>, cutoff: i32, lo: i32, hi: i32) -> (r: (Vec<i32>, Vec<i32>))
    requires
        strictly_increasing(days@),
        lo <= hi + 1,
    ensures
        strictly_increasing(r.0@),
        strictly_increasing(r.1@),
        forall|i: int| 0 <= i < r.0@.len() ==> #[trigger] r.0@[i] < lo,
        forall|i: int| 0 <= i < r.1@.len() ==> #[trigger] r.1@[i] > hi,
        forall|d: i32|
            r.0@.contains(d) <==> (days@.contains(d) && d >= cutoff && d < lo),
        forall|d: i32|
            r.1@.contains(d) <==> (days@.contains(d) && d >= cutoff && d > hi),
{
    let mut below: Vec<i32> = Vec::new();
    let mut above: Vec<i32> = Vec::new();
    let mut i: usize = 0;
    while i < days.len()
        invariant
            i <= days@.len(),
            strictly_increasing(days@),
            strictly_increasing(below@),
            strictly_increasing(above@),
            forall|k: int| 0 <= k < below@.len() ==> #[trigger] below@[k] < lo,
            forall|k: int| 0 <= k < above@.len() ==> #[trigger] above@[k] > hi,
            i < days@.len() ==> forall|k: int| 0 <= k < below@.len() ==> #[trigger] below@[k] < days@[i as int],
            i < days@.len() ==> forall|k: int| 0 <= k < above@.len() ==> #[trigger] above@[k] < days@[i as int],
            forall|d: i32|
                below@.contains(d) <==> (days@.take(i as int).contains(d) && d >= cutoff && d < lo),
            forall|d: i32|
                above@.contains(d) <==> (days@.take(i as int).contains(d) && d >= cutoff && d > hi),
        decreases days@.len() - i,
    {
        broadcast use vstd::seq_lib::lemma_seq_contains_after_push;

        let d = days[i];
        assert(days@.take(i + 1) =~= days@.take(i as int).push(d));
        if d >= cutoff && d < lo {
            below.push(d);
        }
        if d >= cutoff && d > hi {
            above.push(d);
        }
        i = i + 1;
    }
    assert(days@.take(days@.len() as int) =~= days@);
    (below, above)
}

impl ResponseCursor {
    /// The days whose coverage is partial.
    pub fn incomplete_days(&self) -> (r: Vec<i32>)
        ensures
            r@ == self.incomplete_days@,
    {
        self.incomplete_days.clone()
    }

    /// Records that a response was observed on `day`.
    pub fn record_day(&mut self, day: i32, cutoff: i32, complete: bool) -> (r: Result<(), ()>)
        requires
            old(self).well_formed(),
            in_day_range(day as int),
            in_day_range(cutoff as int),
        ensures
            final(self).well_formed(),
            forall|d: i32|
                final(self).incomplete_days@.contains(d) <==> recorded_incomplete_day(
                    old(self).incomplete_days@,
                    old(self).observed_day,
                    day,
                    cutoff,
                    complete,
                    d as int,
                ),
            r is Err <==> (!complete && first_missing_day(old(self).observed_day, day, cutoff)
                <= day && day == MAX_JULIAN_DAY),
            r is Ok ==> final(self).observed_day == Some(later_day(old(self).observed_day, day)),
            r is Err ==> final(self).observed_day == old(self).observed_day,
            final(self).response_id@ == old(self).response_id@,
            final(self).total == old(self).total,
            final(self).usage == old(self).usage,
    {
        let previous = self.observed_day;
        let from = match previous {
            Some(p) => if p < day {
                p
            } else {
                day
            },
            None => day,
        };
        let lo = if from < cutoff {
            cutoff
        } else {
            from
        };
        assert(lo as int == first_missing_day(previous, day, cutoff));
        let marks = !complete && lo <= day;
        let (hi_lo, hi) = if marks {
            (lo, day)
        } else {
            (cutoff, cutoff - 1)
        };
        let (below, above) = keep_from_cutoff(&self.incomplete_days, cutoff, hi_lo, hi);
        let mut out = below;
        let ghost kept_below = out@;
        if marks {
            let mut m = lo;
            while m <= day
                invariant
                    lo <= m <= day + 1,
                    day <= MAX_JULIAN_DAY,
                    strictly_increasing(out@),
                    out@.len() >= kept_below.len(),
                    out@.take(kept_below.len() as int) == kept_below,
                    forall|k: int| 0 <= k < out@.len() ==> #[trigger] out@[k] < m,
                    forall|d: i32| out@.contains(d) <==> (kept_below.contains(d) || lo <= d < m),
                    forall|k: int| 0 <= k < kept_below.len() ==> #[trigger] kept_below[k] < lo,
                decreases day + 1 - m,
            {
                broadcast use vstd::seq_lib::lemma_seq_contains_after_push;

                assert(out@.push(m).take(kept_below.len() as int) =~= out@.take(
                    kept_below.len() as int,
                ));
                out.push(m);
                m = m + 1;
            }
        }
        let ghost middle = out@;
        let mut j: usize = 0;
        while j < above.len()
            invariant
                j <= above@.len(),
                strictly_increasing(out@),
                strictly_increasing(above@),
                forall|k: int| 0 <= k < above@.len() ==> #[trigger] above@[k] > hi,
                forall|k: int| 0 <= k < middle.len() ==> #[trigger] middle[k] <= hi,
                j < above@.len() ==> forall|k: int| 0 <= k < out@.len() ==> #[trigger] out@[k] < above@[j as int],
                forall|d: i32| out@.contains(d) <==> (middle.contains(d) || above@.take(j as int).contains(d)),
            decreases above@.len() - j,
        {
            broadcast use vstd::seq_lib::lemma_seq_contains_after_push;

            assert(above@.take(j + 1) =~= above@.take(j as int).push(above@[j as int]));
            out.push(above[j]);
            j = j + 1;
        }
        assert(above@.take(above@.len() as int) =~= above@);
        assert forall|k: int| 0 <= k < out@.len() implies in_day_range(#[trigger] out@[k] as int) by {
            assert(out@.contains(out@[k]));
            if self.incomplete_days@.contains(out@[k]) {
                let w = choose|w: int| 0 <= w < self.incomplete_days@.len() && self.incomplete_days@[w] == out@[k];
                assert(in_day_range(self.incomplete_days@[w] as int));
            }
        }
        assert forall|d: i32|
            out@.contains(d) <==> recorded_incomplete_day(
                self.incomplete_days@,
                previous,
                day,
                cutoff,
                complete,
                d as int,
            ) by {
            if self.incomplete_days@.contains(d) {
                let w = choose|w: int|
                    0 <= w < self.incomplete_days@.len() && self.incomplete_days@[w] == d;
                assert(in_day_range(self.incomplete_days@[w] as int));
            }
        }
        self.incomplete_days = out;
        if marks && day == MAX_JULIAN_DAY {
            return Err(());
        }
        self.observed_day = Some(
            match previous {
                Some(p) => if p > day {
                    p
                } else {
                    day
                },
                None => day,
            },
        );
        Ok(())
    }
}

/// `after` holds the days of `before` and `day`, and no others.
spec fn days_with(after: Seq<i32>, before: Seq<i32>, day: i32) -> bool {
    forall|d: i32| #[trigger] after.contains(d) <==> (before.contains(d) || d == day)
}

/// Adds a day to a strictly increasing list, keeping it a set.
#[verifier::spinoff_prover]
fn insert_day(days: &mut Vec<i32>, day: i32)
    requires
        strictly_increasing(old(days)@),
    ensures
        strictly_increasing(final(days)@),
        days_with(final(days)@, old(days)@, day),
{
    let mut i: usize = 0;
    while i < days.len() && days[i] < day
        invariant
            i <= days@.len(),
            days@ == old(days)@,
            strictly_increasing(days@),
            forall|k: int| 0 <= k < i ==> #[trigger] days@[k] < day,
        decreases days@.len() - i,
    {
        i = i + 1;
    }
    if i < days.len() && days[i] == day {
        assert(days@.contains(days@[i as int]));
        assert forall|d: i32| days@.contains(d) <==> (old(days)@.contains(d) || d == day) by {
            if d == day {
                assert(days@[i as int] == d);
            }
        }
        assert(days_with(days@, old(days)@, day));
        return;
    }
    let ghost before = days@;
    days.insert(i, day);
    assert(days@ =~= before.take(i as int).push(day) + before.skip(i as int));
    assert forall|d: i32| days@.contains(d) <==> (before.contains(d) || d == day) by {
        if before.contains(d) {
            let w = choose|w: int| 0 <= w < before.len() && before[w] == d;
            if w < i {
                assert(days@[w] == d);
            } else {
                assert(days@[w + 1] == d);
            }
        }
        if days@.contains(d) {
            let w = choose|w: int| 0 <= w < days@.len() && days@[w] == d;
            if w < i {
                assert(before[w] == d);
            } else if w > i {
                assert(before[w - 1] == d);
            }
        }
        if d == day {
            assert(days@[i as int] == day);
        }
    }
    assert(before == old(days)@);
    assert(days_with(days@, old(days)@, day));
}

/// A saved cursor is accepted only when it is small, its days are real
/// ranking days, its counters are consistent and its response id is well
/// formed.
pub open spec fn spec_decode_accepts(encoded_len: usize, raw: EncodedResponseCursor) -> bool {
    &&& encoded_len <= MAX_CURSOR_ENCODED_BYTES
    &&& raw.incomplete_days@.len() <= MAX_CURSOR_INCOMPLETE_DAYS
    &&& forall|i: int|
        0 <= i < raw.incomplete_days@.len() ==> spec_parse_ranking_day(
            encode_utf8(#[trigger] raw.incomplete_days@[i]@),
        ) is Ok
    &&& raw.observed_day matches Some(d) ==> spec_parse_ranking_day(encode_utf8(d@)) is Ok
    &&& valid_usage(raw.total)
    &&& valid_usage(raw.usage)
    &&& spec_delta_from(raw.total, raw.usage) is Ok
    &&& spec_normalized_session_id(Some(raw.response_id@)) is Some
}

impl ResponseCursor {
    /// Decodes a saved cursor, failing closed on anything malformed.
    pub fn decode(encoded_len: usize, raw: EncodedResponseCursor) -> (r: Result<Self, ()>)
        ensures
            r is Ok <==> spec_decode_accepts(encoded_len, raw),
            r matches Ok(c) ==> {
                &&& c.well_formed()
                &&& c.response_id@ == raw.response_id@
                &&& c.total == raw.total
                &&& c.usage == raw.usage
                &&& forall|d: i32|
                    c.incomplete_days@.contains(d) <==> exists|i: int|
                        0 <= i < raw.incomplete_days@.len() && spec_parse_ranking_day(
                            encode_utf8(#[trigger] raw.incomplete_days@[i]@),
                        ) == Ok::<int, ()>(d as int)
                &&& match raw.observed_day {
                    Some(t) => c.observed_day matches Some(o) && spec_parse_ranking_day(
                        encode_utf8(t@),
                    ) == Ok::<int, ()>(o as int),
                    None => c.observed_day is None,
                }
            },
    {
        if encoded_len > MAX_CURSOR_ENCODED_BYTES {
            return Err(());
        }
        if raw.incomplete_days.len() > MAX_CURSOR_INCOMPLETE_DAYS {
            return Err(());
        }
        let mut days: Vec<i32> = Vec::new();
        let mut i: usize = 0;
        while i < raw.incomplete_days.len()
            invariant
                i <= raw.incomplete_days@.len(),
                strictly_increasing(days@),
                forall|k: int| 0 <= k < days@.len() ==> in_day_range(#[trigger] days@[k] as int),
                forall|k: int|
                    0 <= k < i ==> spec_parse_ranking_day(
                        encode_utf8(#[trigger] raw.incomplete_days@[k]@),
                    ) is Ok,
                forall|d: i32|
                    days@.contains(d) <==> exists|k: int|
                        0 <= k < i && spec_parse_ranking_day(
                            encode_utf8(#[trigger] raw.incomplete_days@[k]@),
                        ) == Ok::<int, ()>(d as int),
            decreases raw.incomplete_days@.len() - i,
        {
            let parsed = parse_ranking_day(raw.incomplete_days[i].as_str());
            let day = match parsed {
                Ok(d) => d,
                Err(()) => return Err(()),
            };
            let ghost before = days@;
            insert_day(&mut days, day);
            assert forall|k: int| 0 <= k < days@.len() implies in_day_range(
                #[trigger] days@[k] as int,
            ) by {
                assert(days@.contains(days@[k]));
                if before.contains(days@[k]) {
                    let w = choose|w: int| 0 <= w < before.len() && before[w] == days@[k];
                    assert(in_day_range(before[w] as int));
                }
            }
            assert forall|d: i32|
                days@.contains(d) implies exists|k: int|
                    0 <= k < i + 1 && spec_parse_ranking_day(
                        encode_utf8(#[trigger] raw.incomplete_days@[k]@),
                    ) == Ok::<int, ()>(d as int) by {
                if d == day {
                    assert(spec_parse_ranking_day(encode_utf8(raw.incomplete_days@[i as int]@))
                        == Ok::<int, ()>(d as int));
                }
            }
            i = i + 1;
        }
        let observed_day = match &raw.observed_day {
            Some(t) => match parse_ranking_day(t.as_str()) {
                Ok(d) => Some(d),
                Err(()) => return Err(()),
            },
            None => None,
        };
        raw.total.validate()?;
        raw.usage.validate()?;
        raw.total.delta_from(raw.usage)?;
        if normalized_session_id(Some(raw.response_id.clone())).is_none() {
            return Err(());
        }
        Ok(
            ResponseCursor {
                response_id: raw.response_id,
                total: raw.total,
                usage: raw.usage,
                incomplete_days: days,
                observed_day,
            },
        )
    }
}

} // verus!
