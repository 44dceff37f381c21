use codex_usage::catalog_rules::validate_catalog;
use codex_usage::clock::parse_ranking_day;
use codex_usage::files::PricingMode;
use codex_usage::pricing::{
    price_rule, rate_source, CatalogModel, CatalogPeriod, FastLongContextWindow, PriceRule,
    PricingCatalog, PricingLookupFailure, RateSource,
};
use codex_usage::tokens::{BillableTokenUsage, TokenUsage};

fn day(value: &str) -> i32 {
    parse_ranking_day(value).unwrap()
}

fn period(fast: bool, cache_write: bool, neutral: bool, window: Option<FastLongContextWindow>) -> CatalogPeriod {
    CatalogPeriod {
        effective_from: day("2026-01-01"),
        effective_until: None,
        has_fast_multiplier: fast,
        has_cache_write_price: cache_write,
        long_context_input_tokens_above: 1000,
        long_context_is_neutral: neutral,
        fast_long_context: window,
    }
}

fn usage(input: u64, cached: u64, cache_write: u64, output: u64) -> TokenUsage {
    TokenUsage {
        input,
        cached_input: cached,
        cache_write_input: cache_write,
        output,
        reasoning_output: 0,
        total: input + output,
    }
}

#[test]
fn standard_usage_takes_the_period_rates() {
    let p = period(false, false, false, None);
    assert_eq!(
        rate_source(p, day("2026-02-01"), false, PricingMode::Standard),
        Ok(RateSource::Standard { long_context: false })
    );
    assert_eq!(
        rate_source(p, day("2026-02-01"), true, PricingMode::Standard),
        Ok(RateSource::Standard { long_context: true })
    );
}

#[test]
fn fast_usage_needs_a_fast_price() {
    assert_eq!(
        rate_source(period(false, true, true, None), day("2026-02-01"), false, PricingMode::Fast),
        Err(PricingLookupFailure::MissingFastPrice)
    );
    assert_eq!(
        rate_source(period(true, true, true, None), day("2026-02-01"), false, PricingMode::Fast),
        Ok(RateSource::FastMultiplier)
    );
    assert_eq!(
        rate_source(period(true, true, true, None), day("2026-02-01"), true, PricingMode::Fast),
        Ok(RateSource::FastMultiplier)
    );
    assert_eq!(
        rate_source(period(true, true, false, None), day("2026-02-01"), true, PricingMode::Fast),
        Err(PricingLookupFailure::MissingFastLongContextPrice)
    );
    assert_eq!(
        rate_source(period(false, true, true, None), day("2026-02-01"), true, PricingMode::Fast),
        Err(PricingLookupFailure::MissingFastPrice)
    );
}

#[test]
fn fast_long_context_usage_takes_its_own_price_while_it_applies() {
    let window = FastLongContextWindow {
        effective_from: day("2026-03-01"),
        effective_until: Some(day("2026-04-01")),
        has_cache_write_price: false,
    };
    let p = period(true, true, true, Some(window));
    assert_eq!(
        rate_source(p, day("2026-03-15"), true, PricingMode::Fast),
        Ok(RateSource::FastLongContext)
    );
    assert_eq!(
        rate_source(p, day("2026-02-15"), true, PricingMode::Fast),
        Err(PricingLookupFailure::MissingFastLongContextPrice)
    );
    assert_eq!(
        rate_source(p, day("2026-04-01"), true, PricingMode::Fast),
        Err(PricingLookupFailure::MissingFastLongContextPrice)
    );
}

#[test]
fn price_rules_name_the_period_and_the_billable_split() {
    let window = FastLongContextWindow {
        effective_from: day("2026-01-01"),
        effective_until: None,
        has_cache_write_price: false,
    };
    let catalog = PricingCatalog {
        basis: "test".into(),
        models: vec![
            CatalogModel { names: vec!["gpt-a".into()], periods: vec![period(false, true, true, None)] },
            CatalogModel {
                names: vec!["gpt-b".into()],
                periods: vec![
                    CatalogPeriod {
                        effective_until: Some(day("2026-01-01")),
                        effective_from: day("2025-01-01"),
                        ..period(true, true, true, Some(window))
                    },
                    period(true, true, true, Some(window)),
                ],
            },
        ],
    };
    let day1 = day("2026-05-01");
    assert_eq!(
        price_rule(&catalog, "gpt-b", day1, usage(1500, 200, 100, 50), 1500, PricingMode::Standard),
        PriceRule::Priced {
            model: 1,
            period_index: 1,
            period: period(true, true, true, Some(window)),
            source: RateSource::Standard { long_context: true },
            billable: BillableTokenUsage {
                standard_input: 1200,
                cached_input: 200,
                cache_write_input: 100,
                output: 50,
            },
        }
    );
    assert_eq!(
        price_rule(&catalog, "gpt-b", day1, usage(1500, 200, 100, 50), 1500, PricingMode::Fast),
        PriceRule::Unavailable(PricingLookupFailure::MissingCacheWritePrice)
    );
    assert!(matches!(
        price_rule(&catalog, "gpt-b", day1, usage(1500, 200, 0, 50), 1500, PricingMode::Fast),
        PriceRule::Priced { source: RateSource::FastLongContext, .. }
    ));
    assert_eq!(
        price_rule(&catalog, "gpt-a", day1, usage(10, 20, 0, 5), 10, PricingMode::Standard),
        PriceRule::InvalidTokens
    );
    assert_eq!(
        price_rule(&catalog, "gpt-z", day1, usage(10, 0, 0, 5), 10, PricingMode::Standard),
        PriceRule::Unavailable(PricingLookupFailure::UnknownModel)
    );
    assert_eq!(
        price_rule(&catalog, "gpt-a", day("2025-06-01"), usage(10, 0, 0, 5), 10, PricingMode::Standard),
        PriceRule::Unavailable(PricingLookupFailure::MissingApplicablePrice)
    );
    assert_eq!(
        price_rule(&catalog, "gpt-a", day1, usage(10, 0, 0, 5), 10, PricingMode::Fast),
        PriceRule::Unavailable(PricingLookupFailure::MissingFastPrice)
    );
}

fn dated(from: &str, until: Option<&str>) -> CatalogPeriod {
    CatalogPeriod {
        effective_from: day(from),
        effective_until: until.map(day),
        ..period(true, true, true, None)
    }
}

fn one_model(basis: &str, names: &[&str], periods: Vec<CatalogPeriod>) -> PricingCatalog {
    PricingCatalog {
        basis: basis.into(),
        models: vec![CatalogModel { names: names.iter().map(|name| name.to_string()).collect(), periods }],
    }
}

#[test]
fn catalogs_need_dated_periods_that_never_overlap() {
    let valid = one_model(
        "openai-standard",
        &["gpt-a", "gpt-a-alias"],
        vec![dated("2026-03-01", None), dated("2026-01-01", Some("2026-03-01"))],
    );
    assert!(validate_catalog(&valid));
    let overlapping = one_model(
        "openai-standard",
        &["gpt-a"],
        vec![dated("2026-01-01", Some("2026-03-02")), dated("2026-03-01", None)],
    );
    assert!(!validate_catalog(&overlapping));
    let two_open = one_model("b", &["gpt-a"], vec![dated("2026-01-01", None), dated("2026-03-01", None)]);
    assert!(!validate_catalog(&two_open));
    let backwards = one_model("b", &["gpt-a"], vec![dated("2026-03-01", Some("2026-03-01"))]);
    assert!(!validate_catalog(&backwards));
    assert!(!validate_catalog(&one_model("b", &["gpt-a"], Vec::new())));
    let mut no_threshold = dated("2026-01-01", None);
    no_threshold.long_context_input_tokens_above = 0;
    assert!(!validate_catalog(&one_model("b", &["gpt-a"], vec![no_threshold])));
}

#[test]
fn catalogs_need_unique_well_formed_names_and_a_basis() {
    let p = || vec![dated("2026-01-01", None)];
    assert!(!validate_catalog(&one_model("", &["gpt-a"], p())));
    assert!(!validate_catalog(&one_model(&"x".repeat(65), &["gpt-a"], p())));
    assert!(validate_catalog(&one_model(&"x".repeat(64), &["gpt-a"], p())));
    assert!(!validate_catalog(&one_model("b", &["gpt a"], p())));
    assert!(!validate_catalog(&one_model("b", &["gpt-a", "gpt-a"], p())));
    let mut shared = one_model("b", &["gpt-a"], p());
    shared.models.push(CatalogModel { names: vec!["gpt-a".into()], periods: p() });
    assert!(!validate_catalog(&shared));
    assert!(!validate_catalog(&PricingCatalog { basis: "b".into(), models: Vec::new() }));
}

#[test]
fn fast_long_context_windows_stay_inside_their_period() {
    let window = |from: &str, until: Option<&str>| FastLongContextWindow {
        effective_from: day(from),
        effective_until: until.map(day),
        has_cache_write_price: false,
    };
    let with = |w| one_model(
        "b",
        &["gpt-a"],
        vec![CatalogPeriod {
            fast_long_context: Some(w),
            ..dated("2026-01-01", Some("2026-06-01"))
        }],
    );
    assert!(validate_catalog(&with(window("2026-02-01", Some("2026-06-01")))));
    assert!(!validate_catalog(&with(window("2025-12-01", Some("2026-03-01")))));
    assert!(!validate_catalog(&with(window("2026-02-01", None))));
    assert!(!validate_catalog(&with(window("2026-02-01", Some("2026-07-01")))));
    assert!(!validate_catalog(&with(window("2026-06-01", Some("2026-06-02")))));
}
