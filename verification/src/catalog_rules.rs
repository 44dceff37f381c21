//! What makes a pricing catalog acceptable: a published basis of sensible
//! length, model names that are well formed and never shared, and for each
//! model a non-empty set of well-dated price periods that never overlap.
use vstd::prelude::*;
use vstd::string::StringSliceAdditionalSpecFns;
use vstd::utf8::encode_utf8;

use crate::cli::{spec_valid_model_name, valid_model_name};
use crate::index_line::names_view;
use crate::pricing::{CatalogModel, CatalogPeriod, FastLongContextWindow, PricingCatalog};
use crate::text::str_eq;

verus! {

broadcast use vstd::string::group_string_axioms;

/// The first day a period or window no longer applies; an open end lies
/// past every representable day.
pub open spec fn end_of(until: Option<i32>) -> int {
    match until {
        Some(u) => u as int,
        None => i32::MAX as int + 1,
    }
}

/// Two periods share a day.
pub open spec fn periods_overlap(a: CatalogPeriod, b: CatalogPeriod) -> bool {
    a.effective_from < end_of(b.effective_until) && b.effective_from < end_of(a.effective_until)
}

/// A fast long-context window ends after it starts and lies inside its
/// period: it starts no earlier, and when the period ends, it starts before
/// and ends no later than the period.
pub open spec fn window_is_valid(p: CatalogPeriod, w: FastLongContextWindow) -> bool {
    &&& (w.effective_until matches Some(u) ==> w.effective_from < u)
    &&& p.effective_from <= w.effective_from
    &&& (p.effective_until matches Some(pu) ==> w.effective_from < pu && (w.effective_until matches Some(
        wu,
    ) && wu <= pu))
}

/// A period ends after it starts, has a positive long-context threshold
/// and a valid fast long-context window, if any.
pub open spec fn period_is_valid(p: CatalogPeriod) -> bool {
    &&& (p.effective_until matches Some(u) ==> p.effective_from < u)
    &&& p.long_context_input_tokens_above > 0
    &&& (p.fast_long_context matches Some(w) ==> window_is_valid(p, w))
}

/// A model's periods: at least one, each valid, no two sharing a day.
pub open spec fn periods_are_valid(periods: Seq<CatalogPeriod>) -> bool {
    &&& periods.len() > 0
    &&& forall|i: int| 0 <= i < periods.len() ==> period_is_valid(#[trigger] periods[i])
    &&& forall|i: int, j: int|
        0 <= i < j < periods.len() ==> !periods_overlap(#[trigger] periods[i], #[trigger] periods[j])
}

/// Every name of every model, in order.
pub open spec fn all_names(models: Seq<CatalogModel>) -> Seq<Seq<char>>
    decreases models.len(),
{
    if models.len() == 0 {
        Seq::empty()
    } else {
        all_names(models.drop_last()) + names_view(models.last().names@)
    }
}

/// An acceptable catalog: a basis of 1 to 64 bytes, at least one model,
/// every name well formed and used once across the catalog, and every
/// model's periods valid.
pub open spec fn catalog_is_valid(c: PricingCatalog) -> bool {
    &&& 1 <= c.basis@.len() && encode_utf8(c.basis@).len() <= 64
    &&& c.models@.len() > 0
    &&& forall|k: int| 0 <= k < all_names(c.models@).len() ==> spec_valid_model_name(
        #[trigger] all_names(c.models@)[k],
    )
    &&& all_names(c.models@).no_duplicates()
    &&& forall|m: int| 0 <= m < c.models@.len() ==> periods_are_valid(#[trigger] c.models@[m].periods@)
}

fn period_is_valid_exec(p: CatalogPeriod) -> (r: bool)
    ensures
        r == period_is_valid(p),
{
    let dates = match p.effective_until {
        Some(u) => p.effective_from < u,
        None => true,
    };
    let window = match p.fast_long_context {
        None => true,
        Some(w) => {
            let ends = match w.effective_until {
                Some(u) => w.effective_from < u,
                None => true,
            };
            let inside = match p.effective_until {
                None => true,
                Some(pu) => w.effective_from < pu && match w.effective_until {
                    Some(wu) => wu <= pu,
                    None => false,
                },
            };
            ends && p.effective_from <= w.effective_from && inside
        },
    };
    dates && p.long_context_input_tokens_above > 0 && window
}

fn overlap_exec(a: CatalogPeriod, b: CatalogPeriod) -> (r: bool)
    ensures
        r == periods_overlap(a, b),
{
    let a_before_b_ends = match b.effective_until {
        Some(u) => a.effective_from < u,
        None => true,
    };
    let b_before_a_ends = match a.effective_until {
        Some(u) => b.effective_from < u,
        None => true,
    };
    a_before_b_ends && b_before_a_ends
}

fn periods_are_valid_exec(periods: &Vec<CatalogPeriod>) -> (r: bool)
    ensures
        r == periods_are_valid(periods@),
{
    if periods.len() == 0 {
        return false;
    }
    let mut i: usize = 0;
    while i < periods.len()
        invariant
            i <= periods@.len(),
            forall|k: int| 0 <= k < i ==> period_is_valid(#[trigger] periods@[k]),
            forall|a: int, b: int|
                0 <= a < b < periods@.len() && a < i ==> !periods_overlap(
                    #[trigger] periods@[a],
                    #[trigger] periods@[b],
                ),
        decreases periods@.len() - i,
    {
        if !period_is_valid_exec(periods[i]) {
            return false;
        }
        let mut j: usize = i + 1;
        while j < periods.len()
            invariant
                i < j <= periods@.len(),
                forall|b: int| i < b < j ==> !periods_overlap(periods@[i as int], #[trigger] periods@[b]),
            decreases periods@.len() - j,
        {
            if overlap_exec(periods[i], periods[j]) {
                return false;
            }
            j = j + 1;
        }
        i = i + 1;
    }
    true
}

fn collect_names(models: &Vec<CatalogModel>) -> (r: Vec<String>)
    ensures
        names_view(r@) == all_names(models@),
{
    let mut out: Vec<String> = Vec::new();
    let mut i: usize = 0;
    while i < models.len()
        invariant
            i <= models@.len(),
            names_view(out@) == all_names(models@.take(i as int)),
        decreases models@.len() - i,
    {
        assert(models@.take(i + 1).drop_last() =~= models@.take(i as int));
        let names = &models[i].names;
        let ghost start = names_view(out@);
        let mut k: usize = 0;
        while k < names.len()
            invariant
                k <= names@.len(),
                names_view(out@) == start + names_view(names@.take(k as int)),
            decreases names@.len() - k,
        {
            let ghost before = out@;
            out.push(names[k].clone());
            assert(names_view(out@) =~= names_view(before).push(names@[k as int]@));
            assert(names_view(names@.take(k + 1)) =~= names_view(names@.take(k as int)).push(
                names@[k as int]@,
            ));
            k = k + 1;
        }
        assert(names@.take(names@.len() as int) =~= names@);
        assert(models@.take(i + 1).last() == models@[i as int]);
        i = i + 1;
    }
    assert(models@.take(models@.len() as int) =~= models@);
    out
}

/// Whether the catalog is acceptable (`catalog_is_valid`).
pub fn validate_catalog(catalog: &PricingCatalog) -> (r: bool)
    ensures
        r == catalog_is_valid(*catalog),
{
    let basis_bytes = catalog.basis.as_str().as_bytes().len();
    if catalog.basis.as_str().is_empty() || basis_bytes > 64 || catalog.models.len() == 0 {
        return false;
    }
    let names = collect_names(&catalog.models);
    let ghost all = names_view(names@);
    let mut i: usize = 0;
    while i < names.len()
        invariant
            all == names_view(names@),
            all == all_names(catalog.models@),
            i <= names@.len(),
            forall|k: int| 0 <= k < i ==> spec_valid_model_name(#[trigger] all[k]),
            forall|a: int, b: int| 0 <= a < b < all.len() && a < i ==> #[trigger] all[a] != #[trigger] all[b],
        decreases names@.len() - i,
    {
        assert(all[i as int] == names@[i as int]@);
        if !valid_model_name(names[i].as_str()) {
            return false;
        }
        let mut j: usize = i + 1;
        while j < names.len()
            invariant
                all == names_view(names@),
                all == all_names(catalog.models@),
                i < j <= names@.len(),
                forall|b: int| i < b < j ==> all[i as int] != #[trigger] all[b],
            decreases names@.len() - j,
        {
            assert(all[j as int] == names@[j as int]@);
            assert(all[i as int] == names@[i as int]@);
            if str_eq(names[i].as_str(), names[j].as_str()) {
                assert(!all.no_duplicates());
                return false;
            }
            j = j + 1;
        }
        i = i + 1;
    }
    let mut m: usize = 0;
    while m < catalog.models.len()
        invariant
            m <= catalog.models@.len(),
            forall|k: int| 0 <= k < m ==> periods_are_valid(#[trigger] catalog.models@[k].periods@),
        decreases catalog.models@.len() - m,
    {
        if !periods_are_valid_exec(&catalog.models[m].periods) {
            return false;
        }
        m = m + 1;
    }
    true
}

} // verus!
