//! Provider-reported account usage by UTC day, and its sixty-day cache.
use std::collections::BTreeMap;
use vstd::prelude::*;

use crate::clock::{parse_ranking_day, spec_parse_ranking_day, utc_day_of_nanos, utc_ranking_day, MAX_ABS_UNIX_NANOS};
use vstd::string::StringSliceAdditionalSpecFns;
use vstd::std_specs::btree::spec_btree_map_iter;
use vstd::std_specs::iter::IteratorSpec;

verus! {

broadcast use vstd::std_specs::btree::group_btree_axioms, vstd::laws_cmp::group_laws_cmp;

/// How many UTC days of token history are kept, today included.
pub const TOKEN_HISTORY_RETENTION_DAYS: i32 = 60;

/// Tokens the provider reported for each UTC day (Julian day number).
#[derive(Clone, Debug)]
pub struct AccountUsageObservation {
    pub daily_tokens: BTreeMap<i32, u64>,
}

impl AccountUsageObservation {
    /// How many days the observation covers.
    pub fn day_count(&self) -> (r: usize)
        ensures
            r == self.daily_tokens@.len(),
    {
        self.daily_tokens.len()
    }
}

/// The cached account observation, with the refresh time of each day.
#[derive(Clone, Debug)]
pub struct CachedAccountUsageObservation {
    pub observation: AccountUsageObservation,
    /// Unix nanoseconds of the refresh that last reported each day.
    pub observed_at_by_day: BTreeMap<i32, i128>,
    /// The last successful account usage refresh, including sparse responses.
    pub observed_at: i128,
}

/// `day` lies in the inclusive window `cutoff..=today`.
pub open spec fn in_window(day: int, cutoff: int, today: int) -> bool {
    cutoff <= day <= today
}

/// The entries of `m` whose day lies in `cutoff..=today`.
pub open spec fn window<V>(m: Map<i32, V>, cutoff: int, today: int) -> Map<i32, V> {
    Map::new(|d: i32| m.contains_key(d) && in_window(d as int, cutoff, today), |d: i32| m[d])
}

/// The first day of the retention window that ends on `today`.
pub open spec fn retention_cutoff(today: int) -> int {
    today - (TOKEN_HISTORY_RETENTION_DAYS - 1)
}

/// The daily tokens after a refresh: cached days inside the window, each
/// replaced by the refresh where it reports that day.
pub open spec fn merged_daily_tokens(
    cached: Option<Map<i32, u64>>,
    observed: Map<i32, u64>,
    cutoff: int,
    today: int,
) -> Map<i32, u64> {
    let base = match cached {
        Some(m) => window(m, cutoff, today),
        None => Map::empty(),
    };
    base.union_prefer_right(window(observed, cutoff, today))
}

/// The refresh time of each day after a refresh at `observed_at`.
pub open spec fn merged_observed_at(
    cached: Option<Map<i32, i128>>,
    observed: Map<i32, u64>,
    observed_at: i128,
    cutoff: int,
    today: int,
) -> Map<i32, i128> {
    let base = match cached {
        Some(m) => window(m, cutoff, today),
        None => Map::empty(),
    };
    base.union_prefer_right(
        Map::new(
            |d: i32| observed.contains_key(d) && in_window(d as int, cutoff, today),
            |d: i32| observed_at,
        ),
    )
}

/// Days are ordered as integers, so the map specifications apply to them.
proof fn lemma_day_keys_ordered()
    ensures
        day_keys_ordered(),
{
}

/// Days are ordered as integers.
spec fn day_keys_ordered() -> bool {
    vstd::laws_cmp::obeys_cmp::<i32>()
}

/// The entries of `m` inside `cutoff..=today`.
fn copy_window<V: Copy>(m: &BTreeMap<i32, V>, cutoff: i32, today: i32) -> (r: BTreeMap<i32, V>)
    ensures
        r@ == window(m@, cutoff as int, today as int),
{
    proof {
        lemma_day_keys_ordered();
    }
    let ghost s = spec_btree_map_iter(m).remaining();
    let mut out: BTreeMap<i32, V> = BTreeMap::new();
    for entry in it: m.iter()
        invariant
            day_keys_ordered(),
            it.seq() == s,
            forall|i: int| 0 <= i < s.len() ==> m@.contains_key(*s[i].0) && m@[*s[i].0] == *s[i].1,
            forall|k: i32| m@.contains_key(k) ==> s.contains((&k, &m@[k])),
            forall|k: i32|
                #[trigger] out@.contains_key(k) ==> m@.contains_key(k) && in_window(
                    k as int,
                    cutoff as int,
                    today as int,
                ) && out@[k] == m@[k],
            forall|i: int|
                0 <= i < it.index() && in_window(*s[i].0 as int, cutoff as int, today as int)
                    ==> out@.contains_key(#[trigger] *s[i].0),
    {
        let (day, value) = entry;
        proof {
            assert(0 <= it.index() < s.len());
            assert(s[it.index()] == (day, value));
            assert(m@.contains_key(*day) && m@[*day] == *value);
        }
        if cutoff <= *day && *day <= today {
            out.insert(*day, *value);
        }
    }
    proof {
        assert forall|k: i32| #[trigger] window(m@, cutoff as int, today as int).contains_key(k)
            implies out@.contains_key(k) by {
            assert(s.contains((&k, &m@[k])));
            let i = choose|i: int| 0 <= i < s.len() && s[i] == (&k, &m@[k]);
            assert(*s[i].0 == k);
        }
        assert(out@ =~= window(m@, cutoff as int, today as int));
    }
    out
}

/// The observed days inside the window among the days in `seen`.
spec fn window_seen<V>(m: Map<i32, V>, seen: Set<i32>, cutoff: int, today: int) -> Map<i32, V> {
    Map::new(
        |d: i32| m.contains_key(d) && in_window(d as int, cutoff, today) && seen.contains(d),
        |d: i32| m[d],
    )
}

/// Merges one account usage refresh, taken at `observed_at` (Unix
/// nanoseconds), into the cached observation. Days the refresh reports
/// replace the cached ones; days it leaves out keep their cached tokens;
/// every day outside the sixty-day UTC window that ends on the refresh day
/// is dropped.
pub fn merge_cached_account_usage(
    cached: Option<CachedAccountUsageObservation>,
    observation: AccountUsageObservation,
    observed_at: i128,
) -> (r: CachedAccountUsageObservation)
    requires
        -MAX_ABS_UNIX_NANOS <= observed_at <= MAX_ABS_UNIX_NANOS,
    ensures
        ({
            let today = utc_day_of_nanos(observed_at as int);
            let cutoff = retention_cutoff(today);
            &&& r.observed_at == observed_at
            &&& r.observation.daily_tokens@ == merged_daily_tokens(
                match cached {
                    Some(c) => Some(c.observation.daily_tokens@),
                    None => None,
                },
                observation.daily_tokens@,
                cutoff,
                today,
            )
            &&& r.observed_at_by_day@ == merged_observed_at(
                match cached {
                    Some(c) => Some(c.observed_at_by_day@),
                    None => None,
                },
                observation.daily_tokens@,
                observed_at,
                cutoff,
                today,
            )
        }),
{
    let today = utc_ranking_day(observed_at);
    let cutoff = today - (TOKEN_HISTORY_RETENTION_DAYS - 1);
    let (mut daily_tokens, mut observed_at_by_day) = match &cached {
        Some(c) => (
            copy_window(&c.observation.daily_tokens, cutoff, today),
            copy_window(&c.observed_at_by_day, cutoff, today),
        ),
        None => (BTreeMap::new(), BTreeMap::new()),
    };
    let ghost base_tokens = daily_tokens@;
    let ghost base_at = observed_at_by_day@;
    let ghost obs = observation.daily_tokens@;
    proof {
        lemma_day_keys_ordered();
    }
    let ghost s = spec_btree_map_iter(&observation.daily_tokens).remaining();
    let ghost mut seen: Set<i32> = Set::empty();
    for entry in it: observation.daily_tokens.iter()
        invariant
            day_keys_ordered(),
            it.seq() == s,
            obs == observation.daily_tokens@,
            forall|i: int| 0 <= i < s.len() ==> obs.contains_key(*s[i].0) && obs[*s[i].0] == *s[i].1,
            forall|k: i32| obs.contains_key(k) ==> s.contains((&k, &obs[k])),
            forall|i: int| 0 <= i < it.index() ==> seen.contains(*s[i].0),
            daily_tokens@ == base_tokens.union_prefer_right(
                window_seen(obs, seen, cutoff as int, today as int),
            ),
            observed_at_by_day@ == base_at.union_prefer_right(
                Map::new(
                    |d: i32| window_seen(obs, seen, cutoff as int, today as int).contains_key(d),
                    |d: i32| observed_at,
                ),
            ),
    {
        let (day, tokens) = entry;
        proof {
            assert(s[it.index()] == (day, tokens));
            assert(obs.contains_key(*day) && obs[*day] == *tokens);
        }
        let ghost old_tokens = daily_tokens@;
        let ghost old_at = observed_at_by_day@;
        if cutoff <= *day && *day <= today {
            daily_tokens.insert(*day, *tokens);
            observed_at_by_day.insert(*day, observed_at);
        }
        proof {
            let old_seen = seen;
            seen = seen.insert(*day);
            assert(daily_tokens@ =~= base_tokens.union_prefer_right(
                window_seen(obs, seen, cutoff as int, today as int),
            ));
            assert(observed_at_by_day@ =~= base_at.union_prefer_right(
                Map::new(
                    |d: i32| window_seen(obs, seen, cutoff as int, today as int).contains_key(d),
                    |d: i32| observed_at,
                ),
            ));
        }
    }
    proof {
        assert forall|k: i32| obs.contains_key(k) implies #[trigger] seen.contains(k) by {
            assert(s.contains((&k, &obs[k])));
            let i = choose|i: int| 0 <= i < s.len() && s[i] == (&k, &obs[k]);
            assert(*s[i].0 == k);
        }
        assert(window_seen(obs, seen, cutoff as int, today as int) =~= window(
            obs,
            cutoff as int,
            today as int,
        ));
        assert(daily_tokens@ =~= merged_daily_tokens(
            match cached {
                Some(c) => Some(c.observation.daily_tokens@),
                None => None,
            },
            obs,
            cutoff as int,
            today as int,
        ));
        assert(observed_at_by_day@ =~= merged_observed_at(
            match cached {
                Some(c) => Some(c.observed_at_by_day@),
                None => None,
            },
            obs,
            observed_at,
            cutoff as int,
            today as int,
        ));
    }
    CachedAccountUsageObservation {
        observation: AccountUsageObservation { daily_tokens },
        observed_at_by_day,
        observed_at,
    }
}

/// One `dailyUsageBuckets` entry of an account usage response.
#[derive(Clone, Debug)]
pub struct DailyUsageBucket {
    /// The bucket's UTC day, `YYYY-MM-DD`.
    pub start_date: String,
    pub tokens: u64,
}

/// The Julian day a bucket's `YYYY-MM-DD` start date names.
pub open spec fn bucket_day(start_date: Seq<char>) -> Result<int, ()> {
    spec_parse_ranking_day(vstd::utf8::encode_utf8(start_date))
}

/// The days of a bucket list read front to back: every start date must be
/// a valid day, and no day may appear twice.
pub open spec fn spec_bucket_days(buckets: Seq<DailyUsageBucket>) -> Result<Map<i32, u64>, ()>
    decreases buckets.len(),
{
    if buckets.len() == 0 {
        Ok(Map::empty())
    } else {
        match spec_bucket_days(buckets.drop_last()) {
            Err(()) => Err(()),
            Ok(days) => match bucket_day(buckets.last().start_date@) {
                Err(()) => Err(()),
                Ok(day) => if days.contains_key(day as i32) {
                    Err(())
                } else {
                    Ok(days.insert(day as i32, buckets.last().tokens))
                },
            },
        }
    }
}

/// The observation an account usage response gives: a missing (`null`)
/// bucket list is an available response without days.
pub open spec fn spec_account_usage(buckets: Option<Seq<DailyUsageBucket>>) -> Result<Map<i32, u64>, ()> {
    match buckets {
        None => Ok(Map::empty()),
        Some(b) => spec_bucket_days(b),
    }
}

/// Builds the observation from the decoded daily buckets of an account
/// usage response; an invalid day or a day reported twice rejects the
/// whole response.
pub fn account_usage_from_buckets(buckets: Option<Vec<DailyUsageBucket>>) -> (r: Result<
    AccountUsageObservation,
    (),
>)
    ensures
        match (r, spec_account_usage(
            match buckets {
                Some(b) => Some(b@),
                None => None,
            },
        )) {
            (Ok(o), Ok(days)) => o.daily_tokens@ == days,
            (Err(()), Err(())) => true,
            _ => false,
        },
{
    match buckets {
        Some(b) => observation_from_bucket_list(&b),
        None => Ok(AccountUsageObservation { daily_tokens: BTreeMap::new() }),
    }
}

fn observation_from_bucket_list(buckets: &Vec<DailyUsageBucket>) -> (r: Result<
    AccountUsageObservation,
    (),
>)
    ensures
        match (r, spec_bucket_days(buckets@)) {
            (Ok(o), Ok(days)) => o.daily_tokens@ == days,
            (Err(()), Err(())) => true,
            _ => false,
        },
{
    proof {
        lemma_day_keys_ordered();
    }
    let mut daily_tokens: BTreeMap<i32, u64> = BTreeMap::new();
    let ghost all = buckets@;
    let mut i: usize = 0;
    while i < buckets.len()
        invariant
            day_keys_ordered(),
            all == buckets@,
            0 <= i <= buckets.len(),
            spec_bucket_days(all.take(i as int)) == Ok::<Map<i32, u64>, ()>(daily_tokens@),
        decreases buckets.len() - i,
    {
        let bucket = &buckets[i];
        assert(all.take(i + 1).drop_last() =~= all.take(i as int));
        assert(all.take(i + 1).last() == all[i as int]);
        let date = bucket.start_date.as_str();
        assert(date.spec_bytes() == vstd::utf8::encode_utf8(all[i as int].start_date@));
        let day = match parse_ranking_day(date) {
            Ok(day) => day,
            Err(()) => {
                proof {
                    assert(spec_bucket_days(all.take(i + 1)) is Err);
                    lemma_bucket_error_sticks(all, i as int + 1);
                }
                return Err(());
            },
        };
        assert(bucket_day(all[i as int].start_date@) == Ok::<int, ()>(day as int));
        if daily_tokens.insert(day, bucket.tokens).is_some() {
            proof {
                assert(spec_bucket_days(all.take(i + 1)) is Err);
                lemma_bucket_error_sticks(all, i as int + 1);
            }
            return Err(());
        }
        i = i + 1;
    }
    assert(all.take(i as int) =~= all);
    Ok(AccountUsageObservation { daily_tokens })
}

/// Once a prefix of the buckets is rejected, so is the whole list.
proof fn lemma_bucket_error_sticks(all: Seq<DailyUsageBucket>, n: int)
    requires
        0 <= n <= all.len(),
        spec_bucket_days(all.take(n)) is Err,
    ensures
        spec_bucket_days(all) is Err,
    decreases all.len() - n,
{
    if n < all.len() {
        assert(all.take(n + 1).drop_last() =~= all.take(n));
        lemma_bucket_error_sticks(all, n + 1);
    } else {
        assert(all.take(n) =~= all);
    }
}

/// A refresh that leaves out a cached day inside the window keeps that
/// day's cached tokens.
pub proof fn law_refresh_keeps_unreported_days(
    cached: Map<i32, u64>,
    observed: Map<i32, u64>,
    cutoff: int,
    today: int,
    day: i32,
)
    requires
        cached.contains_key(day),
        !observed.contains_key(day),
        in_window(day as int, cutoff, today),
    ensures
        merged_daily_tokens(Some(cached), observed, cutoff, today).contains_key(day),
        merged_daily_tokens(Some(cached), observed, cutoff, today)[day] == cached[day],
{
}

/// A day a refresh reports inside the window takes the reported tokens.
pub proof fn law_refresh_replaces_reported_days(
    cached: Option<Map<i32, u64>>,
    observed: Map<i32, u64>,
    cutoff: int,
    today: int,
    day: i32,
)
    requires
        observed.contains_key(day),
        in_window(day as int, cutoff, today),
    ensures
        merged_daily_tokens(cached, observed, cutoff, today).contains_key(day),
        merged_daily_tokens(cached, observed, cutoff, today)[day] == observed[day],
{
}

/// No day outside the window survives a refresh, cached or reported.
pub proof fn law_refresh_drops_days_outside_the_window(
    cached: Option<Map<i32, u64>>,
    observed: Map<i32, u64>,
    cutoff: int,
    today: int,
    day: i32,
)
    requires
        !in_window(day as int, cutoff, today),
    ensures
        !merged_daily_tokens(cached, observed, cutoff, today).contains_key(day),
{
}

} // verus!
