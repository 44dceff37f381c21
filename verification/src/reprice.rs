//! Repricing stored usage rows in batches when the pricing manifest
//! changes: where a batch starts, what becomes of each row, and where the
//! next batch resumes.
use vstd::prelude::*;
use vstd::utf8::encode_utf8;

use crate::index_store::{decimal_string, decimal_text, law_decimal_text_reads_back};
use crate::text::{parse_i64, spec_parse_i64, str_eq};

verus! {

broadcast use vstd::string::group_string_axioms;

/// How many stored rows one repricing batch reads.
pub const REPRICE_ROWS_PER_PASS: usize = 256;

pub open spec fn str_opt_view(value: Option<&str>) -> Option<Seq<char>> {
    match value {
        Some(v) => Some(v@),
        None => None,
    }
}

/// How a batch starts, given the fingerprint of the manifest whose repricing
/// completed, the fingerprint a repricing under way is for, and the row id
/// it stopped after: nothing to do when the manifest's repricing completed;
/// refused for an empty batch; otherwise after the stored row id when the
/// repricing under way is for this manifest (an unreadable cursor is an
/// error), else from the first row.
pub open spec fn spec_reprice_batch_start(
    completed_fingerprint: Option<Seq<char>>,
    target_fingerprint: Option<Seq<char>>,
    stored_cursor: Option<Seq<char>>,
    fingerprint: Seq<char>,
    max_rows: usize,
) -> Result<Option<i64>, ()> {
    if completed_fingerprint == Some(fingerprint) {
        Ok(None)
    } else if max_rows == 0 {
        Err(())
    } else if target_fingerprint == Some(fingerprint) {
        match stored_cursor {
            None => Ok(Some(0)),
            Some(c) => match spec_parse_i64(encode_utf8(c)) {
                Some(v) => Ok(Some(v)),
                None => Err(()),
            },
        }
    } else {
        Ok(Some(0))
    }
}

fn opt_str_is(value: Option<&str>, expected: &str) -> (r: bool)
    ensures
        r == (str_opt_view(value) == Some(expected@)),
{
    match value {
        Some(v) => str_eq(v, expected),
        None => false,
    }
}

/// Where a repricing batch for the manifest with `fingerprint` starts:
/// `Ok(None)` when there is nothing to reprice, `Ok(Some(id))` to reprice
/// the rows after row id `id`.
pub fn reprice_batch_start(
    completed_fingerprint: Option<&str>,
    target_fingerprint: Option<&str>,
    stored_cursor: Option<&str>,
    fingerprint: &str,
    max_rows: usize,
) -> (r: Result<Option<i64>, ()>)
    ensures
        r == spec_reprice_batch_start(
            str_opt_view(completed_fingerprint),
            str_opt_view(target_fingerprint),
            str_opt_view(stored_cursor),
            fingerprint@,
            max_rows,
        ),
{
    if opt_str_is(completed_fingerprint, fingerprint) {
        return Ok(None);
    }
    if max_rows == 0 {
        return Err(());
    }
    if !opt_str_is(target_fingerprint, fingerprint) {
        return Ok(Some(0));
    }
    match stored_cursor {
        None => Ok(Some(0)),
        Some(c) => match parse_i64(c) {
            Some(v) => Ok(Some(v)),
            None => Err(()),
        },
    }
}

/// What becomes of one stored row: repriced when it was priced by another
/// rule, given the new basis when only the basis changed, else kept.
#[derive(Clone, Copy, Debug, PartialEq, Eq, Structural)]
pub enum RowReprice {
    Reprice,
    Rebase,
    Keep,
}

pub open spec fn spec_row_reprice(
    stored_rule_fingerprint: Option<Seq<char>>,
    rule_fingerprint: Seq<char>,
    stored_basis: Option<Seq<char>>,
    basis: Seq<char>,
) -> RowReprice {
    if stored_rule_fingerprint != Some(rule_fingerprint) {
        RowReprice::Reprice
    } else if stored_basis != Some(basis) {
        RowReprice::Rebase
    } else {
        RowReprice::Keep
    }
}

/// A row priced by another rule than the manifest's is always repriced,
/// whatever its basis; a row priced by the current rule keeps its cost and
/// only takes the new basis when its basis differs; otherwise it is kept.
pub proof fn law_changed_rules_are_always_repriced(
    stored_rule_fingerprint: Option<Seq<char>>,
    rule_fingerprint: Seq<char>,
    stored_basis: Option<Seq<char>>,
    basis: Seq<char>,
)
    ensures
        stored_rule_fingerprint != Some(rule_fingerprint) ==> spec_row_reprice(
            stored_rule_fingerprint,
            rule_fingerprint,
            stored_basis,
            basis,
        ) == RowReprice::Reprice,
        stored_rule_fingerprint == Some(rule_fingerprint) && stored_basis != Some(basis)
            ==> spec_row_reprice(stored_rule_fingerprint, rule_fingerprint, stored_basis, basis)
            == RowReprice::Rebase,
        stored_rule_fingerprint == Some(rule_fingerprint) && stored_basis == Some(basis)
            ==> spec_row_reprice(stored_rule_fingerprint, rule_fingerprint, stored_basis, basis)
            == RowReprice::Keep,
{
}

pub fn row_reprice(
    stored_rule_fingerprint: Option<&str>,
    rule_fingerprint: &str,
    stored_basis: Option<&str>,
    basis: &str,
) -> (r: RowReprice)
    ensures
        r == spec_row_reprice(
            str_opt_view(stored_rule_fingerprint),
            rule_fingerprint@,
            str_opt_view(stored_basis),
            basis@,
        ),
{
    if !opt_str_is(stored_rule_fingerprint, rule_fingerprint) {
        RowReprice::Reprice
    } else if !opt_str_is(stored_basis, basis) {
        RowReprice::Rebase
    } else {
        RowReprice::Keep
    }
}

/// How a batch that read `rows` rows (at most `max_rows`, the last with id
/// `last_row_id`) after row `cursor` ends: it completes the repricing when
/// it read fewer rows than it could, and the next batch resumes after its
/// last row (or where this one started, when it read none).
pub fn reprice_batch_end(rows: usize, max_rows: usize, last_row_id: Option<i64>, cursor: i64) -> (r: (
    bool,
    i64,
))
    ensures
        r.0 == (rows < max_rows),
        r.1 == match last_row_id {
            Some(id) => id,
            None => cursor,
        },
{
    let next = match last_row_id {
        Some(id) => id,
        None => cursor,
    };
    (rows < max_rows, next)
}

/// The stored form of the cursor a repricing resumes after.
pub fn reprice_cursor_text(cursor: i64) -> (r: String)
    ensures
        r@ == decimal_text(cursor as int),
{
    decimal_string(cursor)
}

/// Where a batch starts: a repricing already completed for this manifest
/// does nothing, whatever else is stored; otherwise an empty batch is
/// refused; a repricing under way for another manifest (or none) starts
/// from the first row; one under way for this manifest resumes after its
/// readable cursor, or from the first row when none is stored.
pub proof fn law_batches_start_where_the_manifest_left_off(
    completed_fingerprint: Option<Seq<char>>,
    target_fingerprint: Option<Seq<char>>,
    stored_cursor: Option<Seq<char>>,
    fingerprint: Seq<char>,
    max_rows: usize,
)
    ensures
        ({
            let r = spec_reprice_batch_start(
                completed_fingerprint,
                target_fingerprint,
                stored_cursor,
                fingerprint,
                max_rows,
            );
            let done = completed_fingerprint == Some(fingerprint);
            &&& done ==> r == Ok::<Option<i64>, ()>(None)
            &&& !done && max_rows == 0 ==> r is Err
            &&& !done && max_rows > 0 && target_fingerprint != Some(fingerprint) ==> r == Ok::<
                Option<i64>,
                (),
            >(Some(0))
            &&& !done && max_rows > 0 && target_fingerprint == Some(fingerprint) && stored_cursor is None
                ==> r == Ok::<Option<i64>, ()>(Some(0))
            &&& !done && max_rows > 0 && target_fingerprint == Some(fingerprint) && stored_cursor is Some
                ==> (r is Ok <==> spec_parse_i64(encode_utf8(stored_cursor.unwrap())) is Some)
            &&& (r is Ok && r.unwrap() is Some && target_fingerprint == Some(fingerprint)
                && stored_cursor is Some && !done) ==> spec_parse_i64(
                encode_utf8(stored_cursor.unwrap()),
            ) == Some(r.unwrap().unwrap())
        }),
{
}

/// A repricing that stopped after row `cursor` resumes right after it: the
/// next batch for the same manifest reads the stored cursor back.
pub proof fn law_reprice_resumes_after_stored_cursor(cursor: i64, fingerprint: Seq<char>, max_rows: usize)
    requires
        max_rows > 0,
    ensures
        spec_reprice_batch_start(
            None,
            Some(fingerprint),
            Some(decimal_text(cursor as int)),
            fingerprint,
            max_rows,
        ) == Ok::<Option<i64>, ()>(Some(cursor)),
{
    law_decimal_text_reads_back(cursor);
}

} // verus!
