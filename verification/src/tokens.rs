//! Cumulative token counters and the arithmetic between them.
use vstd::prelude::*;

verus! {

/// A token counter as Codex reports it. `total` is `input + output`;
/// cached and cache-write input are subsets of `input`, reasoning output is
/// a subset of `output`.
#[derive(Clone, Copy, Debug, PartialEq, Eq, Structural)]
pub struct TokenUsage {
    pub input: u64,
    pub cached_input: u64,
    pub cache_write_input: u64,
    pub output: u64,
    pub reasoning_output: u64,
    pub total: u64,
}

/// The disjoint parts of a counter that carry a price.
#[derive(Clone, Copy, Debug, PartialEq, Eq, Structural)]
pub struct BillableTokenUsage {
    pub standard_input: u64,
    pub cached_input: u64,
    pub cache_write_input: u64,
    pub output: u64,
}

impl Default for TokenUsage {
    fn default() -> (r: Self)
        ensures
            r == zero_usage(),
    {
        TokenUsage::zero()
    }
}

/// The counter with every component at zero.
pub open spec fn zero_usage() -> TokenUsage {
    TokenUsage {
        input: 0,
        cached_input: 0,
        cache_write_input: 0,
        output: 0,
        reasoning_output: 0,
        total: 0,
    }
}

/// The arithmetic relations that every accepted counter satisfies.
pub open spec fn valid_usage(u: TokenUsage) -> bool {
    &&& u.total == u.input + u.output
    &&& u.cached_input + u.cache_write_input <= u.input
    &&& u.reasoning_output <= u.output
}

/// Component-wise difference (meaningful where `b` is at or below `a`).
pub open spec fn usage_sub(a: TokenUsage, b: TokenUsage) -> TokenUsage {
    TokenUsage {
        input: (a.input - b.input) as u64,
        cached_input: (a.cached_input - b.cached_input) as u64,
        cache_write_input: (a.cache_write_input - b.cache_write_input) as u64,
        output: (a.output - b.output) as u64,
        reasoning_output: (a.reasoning_output - b.reasoning_output) as u64,
        total: (a.total - b.total) as u64,
    }
}

/// Component-wise sum (meaningful where no component exceeds `u64::MAX`).
pub open spec fn usage_add(a: TokenUsage, b: TokenUsage) -> TokenUsage {
    TokenUsage {
        input: (a.input + b.input) as u64,
        cached_input: (a.cached_input + b.cached_input) as u64,
        cache_write_input: (a.cache_write_input + b.cache_write_input) as u64,
        output: (a.output + b.output) as u64,
        reasoning_output: (a.reasoning_output + b.reasoning_output) as u64,
        total: (a.total + b.total) as u64,
    }
}

/// Every component of `a` is at or above the matching component of `b`.
pub open spec fn components_at_least(a: TokenUsage, b: TokenUsage) -> bool {
    &&& a.input >= b.input
    &&& a.cached_input >= b.cached_input
    &&& a.cache_write_input >= b.cache_write_input
    &&& a.output >= b.output
    &&& a.reasoning_output >= b.reasoning_output
    &&& a.total >= b.total
}

/// The sum of `a` and `b` fits in every component.
pub open spec fn sum_fits(a: TokenUsage, b: TokenUsage) -> bool {
    &&& a.input + b.input <= u64::MAX
    &&& a.cached_input + b.cached_input <= u64::MAX
    &&& a.cache_write_input + b.cache_write_input <= u64::MAX
    &&& a.output + b.output <= u64::MAX
    &&& a.reasoning_output + b.reasoning_output <= u64::MAX
    &&& a.total + b.total <= u64::MAX
}

/// The usage accrued from `previous` to `current`, if both are valid
/// counters and the growth is itself a valid counter.
pub open spec fn spec_delta_from(current: TokenUsage, previous: TokenUsage) -> Result<TokenUsage, ()> {
    if valid_usage(current) && valid_usage(previous) && components_at_least(current, previous)
        && valid_usage(usage_sub(current, previous)) {
        Ok(usage_sub(current, previous))
    } else {
        Err(())
    }
}

/// A last-request counter with its total recomputed as `input + output`.
pub open spec fn canonical_last_of(u: TokenUsage) -> TokenUsage {
    TokenUsage { total: (u.input + u.output) as u64, ..u }
}

pub open spec fn spec_canonical_last(u: TokenUsage) -> Result<TokenUsage, ()> {
    if u.input + u.output <= u64::MAX && valid_usage(canonical_last_of(u)) {
        Ok(canonical_last_of(u))
    } else {
        Err(())
    }
}

pub open spec fn spec_billable(u: TokenUsage) -> Result<BillableTokenUsage, ()> {
    if valid_usage(u) {
        Ok(
            BillableTokenUsage {
                standard_input: (u.input - u.cached_input - u.cache_write_input) as u64,
                cached_input: u.cached_input,
                cache_write_input: u.cache_write_input,
                output: u.output,
            },
        )
    } else {
        Err(())
    }
}

pub open spec fn spec_checked_add_usage(current: TokenUsage, delta: TokenUsage) -> Result<TokenUsage, ()> {
    if sum_fits(current, delta) && valid_usage(usage_add(current, delta)) {
        Ok(usage_add(current, delta))
    } else {
        Err(())
    }
}

/// Saturating difference of one component.
pub open spec fn sat_sub(a: u64, b: u64) -> u64 {
    if a >= b {
        (a - b) as u64
    } else {
        0
    }
}

/// A child counter with one parent snapshot removed component by component;
/// the total is recomputed from the adjusted input and output.
pub open spec fn parent_adjusted(current: TokenUsage, baseline: TokenUsage) -> TokenUsage {
    TokenUsage {
        input: sat_sub(current.input, baseline.input),
        cached_input: sat_sub(current.cached_input, baseline.cached_input),
        cache_write_input: sat_sub(current.cache_write_input, baseline.cache_write_input),
        output: sat_sub(current.output, baseline.output),
        reasoning_output: sat_sub(current.reasoning_output, baseline.reasoning_output),
        total: (sat_sub(current.input, baseline.input) + sat_sub(
            current.output,
            baseline.output,
        )) as u64,
    }
}

pub open spec fn spec_subtract_parent_snapshot(current: TokenUsage, baseline: TokenUsage) -> Result<
    TokenUsage,
    (),
> {
    if valid_usage(current) && valid_usage(baseline) && sat_sub(current.input, baseline.input)
        + sat_sub(current.output, baseline.output) <= u64::MAX && valid_usage(
        parent_adjusted(current, baseline),
    ) {
        Ok(parent_adjusted(current, baseline))
    } else {
        Err(())
    }
}

pub open spec fn spec_cumulative_delta(
    current: TokenUsage,
    last: Option<TokenUsage>,
    previous: TokenUsage,
    allow_strong_reset: bool,
) -> Result<TokenUsage, ()> {
    match spec_delta_from(current, previous) {
        Ok(d) => Ok(d),
        Err(_) => if allow_strong_reset && last == Some(current) {
            spec_delta_from(current, zero_usage())
        } else {
            Err(())
        },
    }
}

/// No component but the total of `current` exceeds the watermark.
pub open spec fn spec_usage_is_at_or_below(current: TokenUsage, watermark: TokenUsage) -> bool {
    &&& current.input <= watermark.input
    &&& current.cached_input <= watermark.cached_input
    &&& current.cache_write_input <= watermark.cache_write_input
    &&& current.output <= watermark.output
    &&& current.reasoning_output <= watermark.reasoning_output
}

impl TokenUsage {
    pub fn zero() -> (r: Self)
        ensures
            r == zero_usage(),
    {
        TokenUsage {
            input: 0,
            cached_input: 0,
            cache_write_input: 0,
            output: 0,
            reasoning_output: 0,
            total: 0,
        }
    }

    /// Accepts a counter only when its components are arithmetically
    /// consistent.
    pub fn validate(self) -> (r: Result<(), ()>)
        ensures
            r is Ok <==> valid_usage(self),
    {
        let Some(sum) = self.input.checked_add(self.output) else {
            return Err(());
        };
        let Some(subset) = self.cached_input.checked_add(self.cache_write_input) else {
            return Err(());
        };
        if self.total != sum || self.input < subset || self.reasoning_output > self.output {
            return Err(());
        }
        Ok(())
    }

    /// The usage accrued since `previous`; fails closed on any shrinking
    /// component or inconsistent counter.
    pub fn delta_from(self, previous: Self) -> (r: Result<Self, ()>)
        ensures
            r == spec_delta_from(self, previous),
    {
        self.validate()?;
        previous.validate()?;
        let Some(input) = self.input.checked_sub(previous.input) else {
            return Err(());
        };
        let Some(cached_input) = self.cached_input.checked_sub(previous.cached_input) else {
            return Err(());
        };
        let Some(cache_write_input) = self.cache_write_input.checked_sub(
            previous.cache_write_input,
        ) else {
            return Err(());
        };
        let Some(output) = self.output.checked_sub(previous.output) else {
            return Err(());
        };
        let Some(reasoning_output) = self.reasoning_output.checked_sub(previous.reasoning_output)
        else {
            return Err(());
        };
        let Some(total) = self.total.checked_sub(previous.total) else {
            return Err(());
        };
        let delta = Self { input, cached_input, cache_write_input, output, reasoning_output, total };
        delta.validate()?;
        Ok(delta)
    }

    /// A last-request counter whose total is normalized to `input + output`.
    pub fn canonical_last(self) -> (r: Result<Self, ()>)
        ensures
            r == spec_canonical_last(self),
    {
        let Some(total) = self.input.checked_add(self.output) else {
            return Err(());
        };
        let normalized = Self { total, ..self };
        normalized.validate()?;
        Ok(normalized)
    }

    /// Splits a valid counter into its separately priced parts.
    pub fn billable(self) -> (r: Result<BillableTokenUsage, ()>)
        ensures
            r == spec_billable(self),
    {
        self.validate()?;
        let standard_input = self.input - self.cached_input - self.cache_write_input;
        Ok(
            BillableTokenUsage {
                standard_input,
                cached_input: self.cached_input,
                cache_write_input: self.cache_write_input,
                output: self.output,
            },
        )
    }
}

/// Adds a delta to a counter, failing on overflow or an inconsistent sum.
pub fn checked_add_usage(current: TokenUsage, delta: TokenUsage) -> (r: Result<TokenUsage, ()>)
    ensures
        r == spec_checked_add_usage(current, delta),
{
    let Some(input) = current.input.checked_add(delta.input) else {
        return Err(());
    };
    let Some(cached_input) = current.cached_input.checked_add(delta.cached_input) else {
        return Err(());
    };
    let Some(cache_write_input) = current.cache_write_input.checked_add(delta.cache_write_input)
    else {
        return Err(());
    };
    let Some(output) = current.output.checked_add(delta.output) else {
        return Err(());
    };
    let Some(reasoning_output) = current.reasoning_output.checked_add(delta.reasoning_output) else {
        return Err(());
    };
    let Some(total) = current.total.checked_add(delta.total) else {
        return Err(());
    };
    let usage = TokenUsage { input, cached_input, cache_write_input, output, reasoning_output, total };
    usage.validate()?;
    Ok(usage)
}

fn saturating_sub_u64(a: u64, b: u64) -> (r: u64)
    ensures
        r == sat_sub(a, b),
{
    if a >= b {
        a - b
    } else {
        0
    }
}

/// Removes a copied parent snapshot from a child counter. Each component
/// saturates on its own; the total is recomputed from input and output.
pub fn subtract_parent_snapshot(current: TokenUsage, baseline: TokenUsage) -> (r: Result<
    TokenUsage,
    (),
>)
    ensures
        r == spec_subtract_parent_snapshot(current, baseline),
{
    current.validate()?;
    baseline.validate()?;
    let input = saturating_sub_u64(current.input, baseline.input);
    let output = saturating_sub_u64(current.output, baseline.output);
    let Some(total) = input.checked_add(output) else {
        return Err(());
    };
    let adjusted = TokenUsage {
        input,
        cached_input: saturating_sub_u64(current.cached_input, baseline.cached_input),
        cache_write_input: saturating_sub_u64(current.cache_write_input, baseline.cache_write_input),
        output,
        reasoning_output: saturating_sub_u64(current.reasoning_output, baseline.reasoning_output),
        total,
    };
    adjusted.validate()?;
    Ok(adjusted)
}

/// The growth of a cumulative counter; a counter that restarted is accepted
/// whole only where a strong reset is allowed and the last-request usage
/// equals the new cumulative value.
pub fn cumulative_delta(
    current: TokenUsage,
    last: Option<TokenUsage>,
    previous: TokenUsage,
    allow_strong_reset: bool,
) -> (r: Result<TokenUsage, ()>)
    ensures
        r == spec_cumulative_delta(current, last, previous, allow_strong_reset),
{
    match current.delta_from(previous) {
        Ok(delta) => Ok(delta),
        Err(()) => {
            if allow_strong_reset && last == Some(current) {
                current.delta_from(TokenUsage::zero())
            } else {
                Err(())
            }
        },
    }
}

/// Whether every component but the total is at or below the watermark.
pub fn usage_is_at_or_below(current: TokenUsage, watermark: TokenUsage) -> (r: bool)
    ensures
        r == spec_usage_is_at_or_below(current, watermark),
{
    current.input <= watermark.input && current.cached_input <= watermark.cached_input
        && current.cache_write_input <= watermark.cache_write_input && current.output
        <= watermark.output && current.reasoning_output <= watermark.reasoning_output
}

/// Adding back the usage accrued since `previous` restores the current
/// counter exactly.
pub proof fn law_delta_then_add_restores(current: TokenUsage, previous: TokenUsage)
    requires
        spec_delta_from(current, previous) is Ok,
    ensures
        spec_checked_add_usage(previous, spec_delta_from(current, previous)->Ok_0) == Ok::<
            TokenUsage,
            (),
        >(current),
{
    assert(usage_add(previous, usage_sub(current, previous)) =~= current);
}

/// Growing a valid counter by a valid delta and then taking the delta back
/// yields that delta.
pub proof fn law_add_then_delta_recovers(previous: TokenUsage, delta: TokenUsage)
    requires
        valid_usage(previous),
        valid_usage(delta),
        spec_checked_add_usage(previous, delta) is Ok,
    ensures
        spec_delta_from(spec_checked_add_usage(previous, delta)->Ok_0, previous) == Ok::<
            TokenUsage,
            (),
        >(delta),
{
    assert(usage_sub(usage_add(previous, delta), previous) =~= delta);
}

/// Deltas across consecutive snapshots add up to the delta across the whole
/// span: no token is counted twice and none is lost.
pub proof fn law_deltas_compose(a: TokenUsage, b: TokenUsage, c: TokenUsage)
    requires
        spec_delta_from(b, a) is Ok,
        spec_delta_from(c, b) is Ok,
    ensures
        spec_delta_from(c, a) is Ok,
        spec_checked_add_usage(spec_delta_from(b, a)->Ok_0, spec_delta_from(c, b)->Ok_0)
            == spec_delta_from(c, a),
{
    assert(usage_add(usage_sub(b, a), usage_sub(c, b)) =~= usage_sub(c, a));
}

/// The per-snapshot deltas of a run of cumulative counters, added up.
pub open spec fn summed_deltas(snapshots: Seq<TokenUsage>, k: int) -> Result<TokenUsage, ()>
    decreases k,
{
    if k <= 0 {
        Ok(zero_usage())
    } else {
        match (summed_deltas(snapshots, k - 1), spec_delta_from(snapshots[k], snapshots[k - 1])) {
            (Ok(sum), Ok(delta)) => spec_checked_add_usage(sum, delta),
            _ => Err(()),
        }
    }
}

/// A rollout's cumulative counters are counted once overall: when every
/// snapshot grows from the one before, the deltas counted snapshot by
/// snapshot add up to exactly the growth from the first to the last.
pub proof fn law_snapshot_deltas_sum_to_total_growth(snapshots: Seq<TokenUsage>, k: int)
    requires
        0 <= k < snapshots.len(),
        valid_usage(snapshots[0]),
        forall|i: int| 0 < i <= k ==> (#[trigger] spec_delta_from(snapshots[i], snapshots[i - 1])) is Ok,
    ensures
        spec_delta_from(snapshots[k], snapshots[0]) is Ok,
        summed_deltas(snapshots, k) == spec_delta_from(snapshots[k], snapshots[0]),
    decreases k,
{
    if k == 0 {
        law_delta_identities(snapshots[0]);
    } else {
        law_snapshot_deltas_sum_to_total_growth(snapshots, k - 1);
        assert(spec_delta_from(snapshots[k], snapshots[k - 1]) is Ok);
        law_deltas_compose(snapshots[0], snapshots[k - 1], snapshots[k]);
    }
}

/// A valid counter has no growth over itself and all of itself over zero.
pub proof fn law_delta_identities(u: TokenUsage)
    requires
        valid_usage(u),
    ensures
        spec_delta_from(u, u) == Ok::<TokenUsage, ()>(zero_usage()),
        spec_delta_from(u, zero_usage()) == Ok::<TokenUsage, ()>(u),
{
    assert(usage_sub(u, u) =~= zero_usage());
    assert(usage_sub(u, zero_usage()) =~= u);
}

/// A counter that has a delta from `previous` is not below it.
pub proof fn law_delta_implies_not_below(current: TokenUsage, previous: TokenUsage)
    requires
        spec_delta_from(current, previous) is Ok,
    ensures
        spec_usage_is_at_or_below(previous, current),
{
}

/// The watermark comparison is reflexive and transitive.
pub proof fn law_at_or_below_preorder(a: TokenUsage, b: TokenUsage, c: TokenUsage)
    ensures
        spec_usage_is_at_or_below(a, a),
        spec_usage_is_at_or_below(a, b) && spec_usage_is_at_or_below(b, c)
            ==> spec_usage_is_at_or_below(a, c),
{
}

/// The billable parts of a counter partition its input and keep its output.
pub proof fn law_billable_partitions_input(u: TokenUsage)
    requires
        spec_billable(u) is Ok,
    ensures
        spec_billable(u)->Ok_0.standard_input + spec_billable(u)->Ok_0.cached_input
            + spec_billable(u)->Ok_0.cache_write_input == u.input,
        spec_billable(u)->Ok_0.output == u.output,
        spec_billable(u)->Ok_0.standard_input + spec_billable(u)->Ok_0.cached_input
            + spec_billable(u)->Ok_0.cache_write_input + spec_billable(u)->Ok_0.output == u.total,
{
}

/// Removing an empty parent snapshot leaves a valid child counter unchanged.
pub proof fn law_subtract_empty_parent(current: TokenUsage)
    requires
        valid_usage(current),
    ensures
        spec_subtract_parent_snapshot(current, zero_usage()) == Ok::<TokenUsage, ()>(current),
{
    assert(parent_adjusted(current, zero_usage()) =~= current);
}

} // verus!
