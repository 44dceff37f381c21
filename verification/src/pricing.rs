//! Looking up a model and its effective-dated price period in the pricing
//! catalog, and deciding which rates price a model-day. The catalog here
//! holds what those decisions read: each model's names and each period's
//! dates and which of its rates exist.
use vstd::prelude::*;
use vstd::string::StringSliceAdditionalSpecFns;
use vstd::utf8::encode_utf8;

use crate::clock::{parse_ranking_day_bytes, spec_parse_ranking_day};
use crate::files::PricingMode;
use crate::tokens::{spec_billable, BillableTokenUsage, TokenUsage};

verus! {

broadcast use vstd::string::group_string_axioms;

/// The dates of a period's separate price for fast long-context usage, and
/// whether that price publishes a cache-write rate.
#[derive(Clone, Copy, Debug, PartialEq, Eq, Structural)]
pub struct FastLongContextWindow {
    pub effective_from: i32,
    pub effective_until: Option<i32>,
    pub has_cache_write_price: bool,
}

/// One effective-dated price period of a model (days are Julian days),
/// with what decides which of its rates apply: whether it publishes a fast
/// multiplier and a cache-write rate, the input size above which usage is
/// long-context, whether its long-context multipliers are both exactly one,
/// and its separate fast long-context price, if any.
#[derive(Clone, Copy, Debug, PartialEq, Eq, Structural)]
pub struct CatalogPeriod {
    pub effective_from: i32,
    /// The first day the period no longer applies, if it ends.
    pub effective_until: Option<i32>,
    pub has_fast_multiplier: bool,
    pub has_cache_write_price: bool,
    pub long_context_input_tokens_above: u64,
    pub long_context_is_neutral: bool,
    pub fast_long_context: Option<FastLongContextWindow>,
}

/// A priced model: its canonical name first, then its aliases.
#[derive(Debug)]
pub struct CatalogModel {
    pub names: Vec<String>,
    pub periods: Vec<CatalogPeriod>,
}

#[derive(Debug)]
pub struct PricingCatalog {
    /// The published basis the prices come from.
    pub basis: String,
    pub models: Vec<CatalogModel>,
}

/// The pricing basis of the catalog in use, if one is.
pub fn current_pricing_basis(catalog: Option<&PricingCatalog>) -> (r: Option<&str>)
    ensures
        match catalog {
            Some(c) => r matches Some(b) && b@ == c.basis@,
            None => r is None,
        },
{
    match catalog {
        Some(c) => Some(c.basis.as_str()),
        None => None,
    }
}

/// Why no price applies to a model on a day.
#[derive(Clone, Copy, Debug, PartialEq, Eq, Structural)]
pub enum PricingLookupFailure {
    MissingApplicablePrice,
    MissingCacheWritePrice,
    MissingFastLongContextPrice,
    MissingFastPrice,
    UnknownModel,
}

pub open spec fn lookup_failure_reason(f: PricingLookupFailure) -> Seq<char> {
    match f {
        PricingLookupFailure::MissingApplicablePrice => "missing_applicable_price"@,
        PricingLookupFailure::MissingCacheWritePrice => "missing_cache_write_price"@,
        PricingLookupFailure::MissingFastLongContextPrice => "missing_fast_long_context_price"@,
        PricingLookupFailure::MissingFastPrice => "missing_fast_price"@,
        PricingLookupFailure::UnknownModel => "unknown_model"@,
    }
}

impl PricingLookupFailure {
    /// The reason as reported in diagnostics.
    pub fn as_reason(self) -> (r: &'static str)
        ensures
            r@ == lookup_failure_reason(self),
    {
        match self {
            PricingLookupFailure::MissingApplicablePrice => "missing_applicable_price",
            PricingLookupFailure::MissingCacheWritePrice => "missing_cache_write_price",
            PricingLookupFailure::MissingFastLongContextPrice => "missing_fast_long_context_price",
            PricingLookupFailure::MissingFastPrice => "missing_fast_price",
            PricingLookupFailure::UnknownModel => "unknown_model",
        }
    }
}

/// A period applies from its first day up to, not including, its end.
pub open spec fn spec_applies_to(p: CatalogPeriod, day: i32) -> bool {
    day >= p.effective_from && (p.effective_until matches Some(until) ==> day < until)
}

impl CatalogPeriod {
    pub fn applies_to(self, day: i32) -> (r: bool)
        ensures
            r == spec_applies_to(self, day),
    {
        day >= self.effective_from && match self.effective_until {
            Some(until) => day < until,
            None => true,
        }
    }
}

/// The names of each model, as UTF-8 bytes.
pub open spec fn model_names(models: Seq<CatalogModel>) -> Seq<Seq<Seq<u8>>> {
    models.map_values(
        |m: CatalogModel| m.names@.map_values(|n: String| encode_utf8(n@)),
    )
}

/// The index of the first model that has `name` among its names.
pub open spec fn model_named(names: Seq<Seq<Seq<u8>>>, name: Seq<u8>) -> Option<int>
    decreases names.len(),
{
    if names.len() == 0 {
        None
    } else {
        match model_named(names.drop_last(), name) {
            Some(i) => Some(i),
            None => if names.last().contains(name) {
                Some(names.len() - 1)
            } else {
                None
            },
        }
    }
}

/// The bytes of `openai/`.
pub open spec fn provider_prefix() -> Seq<u8> {
    seq![111u8, 112u8, 101u8, 110u8, 97u8, 105u8, 47u8]
}

/// A model name without its optional `openai/` provider prefix.
pub open spec fn strip_provider_prefix(name: Seq<u8>) -> Seq<u8> {
    if name.len() >= 7 && name.take(7) == provider_prefix() {
        name.skip(7)
    } else {
        name
    }
}

/// The model a name denotes: a model listing the name (without its
/// provider prefix), or else, for a dated snapshot `<base>-YYYY-MM-DD`,
/// a model listing the base.
pub open spec fn spec_catalog_model(names: Seq<Seq<Seq<u8>>>, model_name: Seq<u8>) -> Option<int> {
    let n = strip_provider_prefix(model_name);
    match model_named(names, n) {
        Some(i) => Some(i),
        None => if n.len() >= 11 && n[n.len() - 11] == 45 && spec_parse_ranking_day(
            n.skip(n.len() - 10),
        ) is Ok {
            model_named(names, n.take(n.len() - 11))
        } else {
            None
        },
    }
}

/// The index of the first period that applies on `day`.
pub open spec fn applicable_period(periods: Seq<CatalogPeriod>, day: i32) -> Option<int>
    decreases periods.len(),
{
    if periods.len() == 0 {
        None
    } else {
        match applicable_period(periods.drop_last(), day) {
            Some(i) => Some(i),
            None => if spec_applies_to(periods.last(), day) {
                Some(periods.len() - 1)
            } else {
                None
            },
        }
    }
}

/// The price period of a model on a day, or why there is none.
pub open spec fn spec_pricing_catalog_entry(
    catalog: PricingCatalog,
    model: Seq<u8>,
    day: i32,
) -> Result<CatalogPeriod, PricingLookupFailure> {
    match spec_catalog_model(model_names(catalog.models@), model) {
        None => Err(PricingLookupFailure::UnknownModel),
        Some(i) => match applicable_period(catalog.models@[i].periods@, day) {
            None => Err(PricingLookupFailure::MissingApplicablePrice),
            Some(j) => Ok(catalog.models@[i].periods@[j]),
        },
    }
}

/// Whether the model's price on `day` publishes a fast multiplier.
pub open spec fn spec_model_has_fast_multiplier(
    catalog: Option<PricingCatalog>,
    model: Seq<u8>,
    day: i32,
) -> bool {
    match catalog {
        None => false,
        Some(c) => match spec_pricing_catalog_entry(c, model, day) {
            Ok(p) => p.has_fast_multiplier,
            Err(_) => false,
        },
    }
}

/// `x[start..end]` equals `y`.
fn bytes_range_eq(x: &[u8], start: usize, end: usize, y: &[u8]) -> (r: bool)
    requires
        start <= end <= x@.len(),
    ensures
        r == (x@.subrange(start as int, end as int) == y@),
{
    if end - start != y.len() {
        return false;
    }
    let mut i: usize = 0;
    while i < y.len()
        invariant
            end - start == y@.len(),
            start <= end <= x@.len(),
            i <= y@.len(),
            forall|j: int| 0 <= j < i ==> x@[start + j] == y@[j],
        decreases y@.len() - i,
    {
        if x[start + i] != y[i] {
            return false;
        }
        i = i + 1;
    }
    assert(x@.subrange(start as int, end as int) =~= y@);
    true
}

impl PricingCatalog {
    /// The index of the first model listing `b[start..end]` among its names.
    fn model_named_at(&self, b: &[u8], start: usize, end: usize) -> (r: Option<usize>)
        requires
            start <= end <= b@.len(),
        ensures
            r matches Some(i) ==> model_named(
                model_names(self.models@),
                b@.subrange(start as int, end as int),
            ) == Some(i as int),
            r is None ==> model_named(
                model_names(self.models@),
                b@.subrange(start as int, end as int),
            ) is None,
    {
        let ghost all = model_names(self.models@);
        let ghost name = b@.subrange(start as int, end as int);
        let mut i: usize = 0;
        while i < self.models.len()
            invariant
                all == model_names(self.models@),
                name == b@.subrange(start as int, end as int),
                start <= end <= b@.len(),
                i <= self.models@.len(),
                model_named(all.take(i as int), name) is None,
            decreases self.models@.len() - i,
        {
            assert(all.take(i + 1).drop_last() =~= all.take(i as int));
            let names = &self.models[i].names;
            let ghost listed = all[i as int];
            assert(all.take(i + 1).last() == listed);
            let mut k: usize = 0;
            let mut found = false;
            while k < names.len()
                invariant
                    listed == names@.map_values(|n: String| encode_utf8(n@)),
                    name == b@.subrange(start as int, end as int),
                    start <= end <= b@.len(),
                    k <= names@.len(),
                    found <==> exists|j: int| 0 <= j < k && listed[j] == name,
                decreases names@.len() - k,
            {
                let candidate = names[k].as_str().as_bytes();
                assert(listed[k as int] == candidate@);
                if !found && bytes_range_eq(b, start, end, candidate) {
                    found = true;
                }
                k = k + 1;
            }
            if found {
                proof {
                    lemma_model_named_prefix(all, i + 1, name);
                }
                return Some(i);
            }
            assert(!listed.contains(name));
            i = i + 1;
        }
        assert(all.take(i as int) =~= all);
        None
    }

    /// The model a name denotes, by the rules of `spec_catalog_model`.
    pub fn model(&self, model_name: &str) -> (r: Option<usize>)
        ensures
            r matches Some(i) ==> spec_catalog_model(model_names(self.models@), model_name.spec_bytes())
                == Some(i as int) && i < self.models@.len(),
            r is None ==> spec_catalog_model(model_names(self.models@), model_name.spec_bytes()) is None,
    {
        let b = model_name.as_bytes();
        let start = provider_prefix_len(b);
        let ghost n = strip_provider_prefix(b@);
        let end = b.len();
        match self.model_named_at(b, start, end) {
            Some(i) => {
                proof {
                    lemma_model_named_in_range(model_names(self.models@), n);
                }
                Some(i)
            },
            None => self.dated_snapshot_model(b, start),
        }
    }

    /// For a name `<base>-YYYY-MM-DD` in `b[start..]`, the model listing
    /// the base.
    fn dated_snapshot_model(&self, b: &[u8], start: usize) -> (r: Option<usize>)
        requires
            start <= b@.len(),
        ensures
            ({
                let n = b@.subrange(start as int, b@.len() as int);
                let expected = if n.len() >= 11 && n[n.len() - 11] == 45 && spec_parse_ranking_day(
                    n.skip(n.len() - 10),
                ) is Ok {
                    model_named(model_names(self.models@), n.take(n.len() - 11))
                } else {
                    None
                };
                &&& r matches Some(i) ==> expected == Some(i as int) && i < self.models@.len()
                &&& r is None ==> expected is None
            }),
    {
        let ghost n = b@.subrange(start as int, b@.len() as int);
        let end = b.len();
        if end - start < 11 {
            return None;
        }
        let suffix_start = end - 11;
        if b[suffix_start] != 45 {
            return None;
        }
        assert(n[n.len() - 11] == b@[suffix_start as int]);
        assert(b@.skip(suffix_start + 1) =~= n.skip(n.len() - 10));
        if parse_ranking_day_bytes(b, suffix_start + 1).is_err() {
            return None;
        }
        assert(b@.subrange(start as int, suffix_start as int) =~= n.take(n.len() - 11));
        let r = self.model_named_at(b, start, suffix_start);
        proof {
            lemma_model_named_in_range(model_names(self.models@), n.take(n.len() - 11));
        }
        r
    }
}

/// Where a model name starts once its `openai/` prefix is dropped.
fn provider_prefix_len(b: &[u8]) -> (r: usize)
    ensures
        r <= b@.len(),
        b@.subrange(r as int, b@.len() as int) == strip_provider_prefix(b@),
{
    if b.len() >= 7 && b[0] == 111 && b[1] == 112 && b[2] == 101 && b[3] == 110 && b[4] == 97
        && b[5] == 105 && b[6] == 47 {
        assert(b@.take(7) =~= provider_prefix());
        assert(b@.subrange(7, b@.len() as int) =~= b@.skip(7));
        7
    } else {
        assert(b@.len() >= 7 ==> b@.take(7)[0] == b@[0] && b@.take(7)[1] == b@[1] && b@.take(7)[2]
            == b@[2] && b@.take(7)[3] == b@[3] && b@.take(7)[4] == b@[4] && b@.take(7)[5] == b@[5]
            && b@.take(7)[6] == b@[6]);
        assert(b@.subrange(0, b@.len() as int) =~= b@);
        0
    }
}

/// The first period of `periods` that applies on `day`.
fn find_applicable_period(periods: &Vec<CatalogPeriod>, day: i32) -> (r: Option<usize>)
    ensures
        r matches Some(j) ==> applicable_period(periods@, day) == Some(j as int) && j
            < periods@.len(),
        r is None ==> applicable_period(periods@, day) is None,
{
    let mut j: usize = 0;
    while j < periods.len()
        invariant
            j <= periods@.len(),
            applicable_period(periods@.take(j as int), day) is None,
        decreases periods@.len() - j,
    {
        assert(periods@.take(j + 1).drop_last() =~= periods@.take(j as int));
        if periods[j].applies_to(day) {
            proof {
                lemma_applicable_period_prefix(periods@, j + 1, day);
            }
            return Some(j);
        }
        j = j + 1;
    }
    assert(periods@.take(j as int) =~= periods@);
    None
}

proof fn lemma_applicable_period_prefix(periods: Seq<CatalogPeriod>, k: int, day: i32)
    requires
        0 <= k <= periods.len(),
        applicable_period(periods.take(k), day) is Some,
    ensures
        applicable_period(periods, day) == applicable_period(periods.take(k), day),
    decreases periods.len() - k,
{
    if k < periods.len() {
        assert(periods.take(k + 1).drop_last() =~= periods.take(k));
        lemma_applicable_period_prefix(periods, k + 1, day);
    } else {
        assert(periods.take(k) =~= periods);
    }
}

/// The price period of `model` that applies on `day`, or why none does.
pub fn pricing_catalog_entry(catalog: &PricingCatalog, model: &str, day: i32) -> (r: Result<
    CatalogPeriod,
    PricingLookupFailure,
>)
    ensures
        r == spec_pricing_catalog_entry(*catalog, model.spec_bytes(), day),
{
    let i = match catalog.model(model) {
        Some(i) => i,
        None => return Err(PricingLookupFailure::UnknownModel),
    };
    let periods = &catalog.models[i].periods;
    match find_applicable_period(periods, day) {
        Some(j) => Ok(periods[j]),
        None => Err(PricingLookupFailure::MissingApplicablePrice),
    }
}

/// Whether the price of `model` on `day` publishes a fast multiplier;
/// without a catalog, no model has one.
pub fn model_has_fast_multiplier(catalog: Option<&PricingCatalog>, model: &str, day: i32) -> (r:
    bool)
    ensures
        r == spec_model_has_fast_multiplier(
            match catalog {
                Some(c) => Some(*c),
                None => None,
            },
            model.spec_bytes(),
            day,
        ),
{
    match catalog {
        None => false,
        Some(c) => match pricing_catalog_entry(c, model, day) {
            Ok(p) => p.has_fast_multiplier,
            Err(_) => false,
        },
    }
}

/// The canonical name of the model a name denotes.
pub fn canonical_model_name<'a>(catalog: &'a PricingCatalog, model_name: &str) -> (r: Option<
    &'a str,
>)
    ensures
        match spec_catalog_model(model_names(catalog.models@), model_name.spec_bytes()) {
            None => r is None,
            Some(i) => if catalog.models@[i].names@.len() == 0 {
                r is None
            } else {
                r matches Some(n) && n@ == catalog.models@[i].names@[0]@
            },
        },
{
    match catalog.model(model_name) {
        None => None,
        Some(i) => {
            let names = &catalog.models[i].names;
            if names.len() == 0 {
                None
            } else {
                Some(names[0].as_str())
            }
        },
    }
}

proof fn lemma_model_named_prefix(names: Seq<Seq<Seq<u8>>>, k: int, name: Seq<u8>)
    requires
        0 <= k <= names.len(),
        model_named(names.take(k), name) is Some,
    ensures
        model_named(names, name) == model_named(names.take(k), name),
    decreases names.len() - k,
{
    if k < names.len() {
        assert(names.take(k + 1).drop_last() =~= names.take(k));
        lemma_model_named_prefix(names, k + 1, name);
    } else {
        assert(names.take(k) =~= names);
    }
}

proof fn lemma_model_named_in_range(names: Seq<Seq<Seq<u8>>>, name: Seq<u8>)
    ensures
        model_named(names, name) matches Some(i) ==> 0 <= i < names.len(),
    decreases names.len(),
{
    if names.len() > 0 {
        lemma_model_named_in_range(names.drop_last(), name);
    }
}

/// Which of a period's rates price usage: its own (scaled by its
/// long-context multipliers for long-context usage), its separate fast
/// long-context price, or its own scaled by its fast multiplier.
#[derive(Clone, Copy, Debug, PartialEq, Eq, Structural)]
pub enum RateSource {
    Standard { long_context: bool },
    FastLongContext,
    FastMultiplier,
}

pub open spec fn window_applies_to(w: FastLongContextWindow, day: i32) -> bool {
    day >= w.effective_from && (w.effective_until matches Some(until) ==> day < until)
}

/// The rates that apply to usage in `mode` on `day`. Standard usage takes
/// the period's rates. Fast long-context usage takes the separate fast
/// long-context price when it applies on the day; a period that has one
/// that does not apply, or whose long-context multipliers are not neutral,
/// has no fast long-context price. Other fast usage takes the fast
/// multiplier, which the period must publish.
pub open spec fn spec_rate_source(
    p: CatalogPeriod,
    day: i32,
    long_context: bool,
    mode: PricingMode,
) -> Result<RateSource, PricingLookupFailure> {
    match mode {
        PricingMode::Standard => Ok(RateSource::Standard { long_context }),
        PricingMode::Fast => if long_context {
            match p.fast_long_context {
                Some(w) => if window_applies_to(w, day) {
                    Ok(RateSource::FastLongContext)
                } else {
                    Err(PricingLookupFailure::MissingFastLongContextPrice)
                },
                None => if !p.long_context_is_neutral {
                    Err(PricingLookupFailure::MissingFastLongContextPrice)
                } else if !p.has_fast_multiplier {
                    Err(PricingLookupFailure::MissingFastPrice)
                } else {
                    Ok(RateSource::FastMultiplier)
                },
            }
        } else if p.has_fast_multiplier {
            Ok(RateSource::FastMultiplier)
        } else {
            Err(PricingLookupFailure::MissingFastPrice)
        },
    }
}

pub fn rate_source(p: CatalogPeriod, day: i32, long_context: bool, mode: PricingMode) -> (r: Result<
    RateSource,
    PricingLookupFailure,
>)
    ensures
        r == spec_rate_source(p, day, long_context, mode),
{
    match mode {
        PricingMode::Standard => Ok(RateSource::Standard { long_context }),
        PricingMode::Fast => {
            if long_context {
                match p.fast_long_context {
                    Some(w) => {
                        let applies = day >= w.effective_from && match w.effective_until {
                            Some(until) => day < until,
                            None => true,
                        };
                        if applies {
                            Ok(RateSource::FastLongContext)
                        } else {
                            Err(PricingLookupFailure::MissingFastLongContextPrice)
                        }
                    },
                    None => {
                        if !p.long_context_is_neutral {
                            Err(PricingLookupFailure::MissingFastLongContextPrice)
                        } else if !p.has_fast_multiplier {
                            Err(PricingLookupFailure::MissingFastPrice)
                        } else {
                            Ok(RateSource::FastMultiplier)
                        }
                    },
                }
            } else if p.has_fast_multiplier {
                Ok(RateSource::FastMultiplier)
            } else {
                Err(PricingLookupFailure::MissingFastPrice)
            }
        },
    }
}

/// Whether the rates from `source` publish a cache-write rate.
pub open spec fn source_has_cache_write_price(p: CatalogPeriod, source: RateSource) -> bool {
    match source {
        RateSource::FastLongContext => match p.fast_long_context {
            Some(w) => w.has_cache_write_price,
            None => false,
        },
        _ => p.has_cache_write_price,
    }
}

/// How usage is priced: by the period and rates found, on its billable
/// split; or not, because its counters are inconsistent or because no
/// price applies (and why).
#[derive(Clone, Copy, Debug, PartialEq, Eq, Structural)]
pub enum PriceRule {
    Priced {
        model: usize,
        period_index: usize,
        period: CatalogPeriod,
        source: RateSource,
        billable: BillableTokenUsage,
    },
    InvalidTokens,
    Unavailable(PricingLookupFailure),
}

/// The pricing rule for usage of `model` on `day`: inconsistent counters
/// first; then the model (by position) and its period on the day (by
/// position among the model's periods); then the rates for the
/// mode, usage being long-context when `pricing_input_tokens` passes the
/// period's threshold; and cache-write tokens need a cache-write rate.
pub open spec fn spec_price_rule(
    catalog: PricingCatalog,
    model: Seq<u8>,
    day: i32,
    usage: TokenUsage,
    pricing_input_tokens: u64,
    mode: PricingMode,
) -> PriceRule {
    match spec_billable(usage) {
        Err(_) => PriceRule::InvalidTokens,
        Ok(billable) => match spec_catalog_model(model_names(catalog.models@), model) {
            None => PriceRule::Unavailable(PricingLookupFailure::UnknownModel),
            Some(i) => match applicable_period(catalog.models@[i].periods@, day) {
                None => PriceRule::Unavailable(PricingLookupFailure::MissingApplicablePrice),
                Some(j) => {
                    let period = catalog.models@[i].periods@[j];
                    match spec_rate_source(
                        period,
                        day,
                        pricing_input_tokens > period.long_context_input_tokens_above,
                        mode,
                    ) {
                        Err(f) => PriceRule::Unavailable(f),
                        Ok(source) => if billable.cache_write_input > 0
                            && !source_has_cache_write_price(period, source) {
                            PriceRule::Unavailable(PricingLookupFailure::MissingCacheWritePrice)
                        } else {
                            PriceRule::Priced {
                                model: i as usize,
                                period_index: j as usize,
                                period,
                                source,
                                billable,
                            }
                        },
                    }
                },
            },
        },
    }
}

pub fn price_rule(
    catalog: &PricingCatalog,
    model: &str,
    day: i32,
    usage: TokenUsage,
    pricing_input_tokens: u64,
    mode: PricingMode,
) -> (r: PriceRule)
    ensures
        r == spec_price_rule(*catalog, model.spec_bytes(), day, usage, pricing_input_tokens, mode),
{
    let billable = match usage.billable() {
        Ok(b) => b,
        Err(()) => return PriceRule::InvalidTokens,
    };
    let i = match catalog.model(model) {
        Some(i) => i,
        None => return PriceRule::Unavailable(PricingLookupFailure::UnknownModel),
    };
    let j = match find_applicable_period(&catalog.models[i].periods, day) {
        Some(j) => j,
        None => return PriceRule::Unavailable(PricingLookupFailure::MissingApplicablePrice),
    };
    let period = catalog.models[i].periods[j];
    let long_context = pricing_input_tokens > period.long_context_input_tokens_above;
    let source = match rate_source(period, day, long_context, mode) {
        Ok(s) => s,
        Err(f) => return PriceRule::Unavailable(f),
    };
    let has_cache_write = match source {
        RateSource::FastLongContext => match period.fast_long_context {
            Some(w) => w.has_cache_write_price,
            None => false,
        },
        _ => period.has_cache_write_price,
    };
    if billable.cache_write_input > 0 && !has_cache_write {
        PriceRule::Unavailable(PricingLookupFailure::MissingCacheWritePrice)
    } else {
        PriceRule::Priced { model: i, period_index: j, period, source, billable }
    }
}

/// Which rates apply: standard usage always has a price (its own rates,
/// long-context scaled when it is long-context); fast usage that is not
/// long-context is priced exactly when the period publishes a fast
/// multiplier; fast long-context usage takes the separate fast long-context
/// price on the days it applies and has no price on its other days, and
/// without such a price it needs neutral long-context multipliers and a
/// fast multiplier. A priced rule names a period of the model that applies
/// on the day.
pub proof fn law_rate_sources_follow_the_mode(p: CatalogPeriod, day: i32, long_context: bool, mode: PricingMode)
    ensures
        ({
            let r = spec_rate_source(p, day, long_context, mode);
            &&& mode == PricingMode::Standard ==> r == Ok::<RateSource, PricingLookupFailure>(
                RateSource::Standard { long_context },
            )
            &&& mode == PricingMode::Fast && !long_context ==> (r is Ok <==> p.has_fast_multiplier)
            &&& mode == PricingMode::Fast && !long_context && p.has_fast_multiplier ==> r == Ok::<
                RateSource,
                PricingLookupFailure,
            >(RateSource::FastMultiplier)
            &&& mode == PricingMode::Fast && long_context && p.fast_long_context is Some ==> (r
                == if window_applies_to(p.fast_long_context.unwrap(), day) {
                Ok::<RateSource, PricingLookupFailure>(RateSource::FastLongContext)
            } else {
                Err(PricingLookupFailure::MissingFastLongContextPrice)
            })
            &&& mode == PricingMode::Fast && long_context && p.fast_long_context is None ==> (r is Ok
                <==> p.long_context_is_neutral && p.has_fast_multiplier)
            &&& r is Ok && mode == PricingMode::Fast ==> r != Ok::<RateSource, PricingLookupFailure>(
                RateSource::Standard { long_context },
            )
        }),
{
}

} // verus!
