use vstd::prelude::*;
use crate::schema::{SchemaModel, names_of};
use crate::validate::{ValidationOutcome, validate_record, expected_outcome};

verus! {

/// The view of one record's outcome.
pub type OutcomeView = (bool, Seq<(Seq<char>, Seq<char>)>, Option<Seq<char>>);

/// The views of a list of records.
pub open spec fn rows_of(records: Seq<Vec<String>>) -> Seq<Seq<Seq<char>>> {
    records.map_values(|r: Vec<String>| names_of(r@))
}

/// The views of a list of outcomes.
pub open spec fn outcomes_of(v: Seq<ValidationOutcome>) -> Seq<OutcomeView> {
    v.map_values(|o: ValidationOutcome| o@)
}

/// Errors that one outcome reports: one for a column-count mismatch, one per
/// failing field, and one for a key that cannot be reached.
pub open spec fn error_count(o: OutcomeView) -> nat {
    (if o.0 { 0nat } else { 1nat }) + o.1.len() + (if o.2 is Some { 0nat } else { 1nat })
}

/// What is left of an error budget after an outcome.
pub open spec fn budget_after(budget: Option<nat>, o: OutcomeView) -> Option<nat> {
    match budget {
        Some(b) => Some(if error_count(o) >= b { 0nat } else { (b - error_count(o)) as nat }),
        None => None,
    }
}

/// The outcomes of checking `records` in order, stopping once the reported
/// errors reach the budget, when there is one.
pub open spec fn scan_outcomes(
    records: Seq<Seq<Seq<char>>>,
    schema: &SchemaModel,
    budget: Option<nat>,
) -> Seq<OutcomeView>
    decreases records.len(),
{
    if records.len() == 0 || budget == Some(0nat) {
        Seq::empty()
    } else {
        let o = expected_outcome(records[0], schema);
        seq![o] + scan_outcomes(records.drop_first(), schema, budget_after(budget, o))
    }
}

/// The error limit as a budget.
pub open spec fn budget_of(max_errors: Option<usize>) -> Option<nat> {
    match max_errors {
        Some(m) => Some(m as nat),
        None => None,
    }
}

/// What is left of an error limit after `errors` more errors; no limit stays no limit.
pub fn spend_errors(left: Option<usize>, errors: usize) -> (r: Option<usize>)
    ensures
        r == match left {
            Some(b) => Some(if errors >= b { 0 } else { (b - errors) as usize }),
            None => None::<usize>,
        },
{
    match left {
        Some(b) => Some(if errors >= b { 0 } else { b - errors }),
        None => None,
    }
}

/// What is left of an error limit after the errors that `o` reports.
pub fn spend_budget(left: Option<usize>, o: &ValidationOutcome) -> (r: Option<usize>)
    ensures
        budget_of(r) == budget_after(budget_of(left), o@),
{
    let f = o.failures.len();
    let miss: usize = if o.column_count_matches { 0 } else { 1 };
    let unreachable: usize = if o.key.is_some() { 0 } else { 1 };
    let after = spend_errors(left, f);
    assert(o.failures@.len() == o@.1.len());
    let after = spend_errors(after, miss);
    spend_errors(after, unreachable)
}

/// Checks each record in order against `schema` and returns one outcome per
/// record checked. With `max_errors`, the scan stops after the record that
/// brings the reported errors to that limit (at once, for a limit of zero).
pub fn validate_records(
    records: &Vec<Vec<String>>,
    schema: &SchemaModel,
    max_errors: Option<usize>,
) -> (r: Vec<ValidationOutcome>)
    requires
        schema.wf(),
    ensures
        outcomes_of(r@) == scan_outcomes(rows_of(records@), schema, budget_of(max_errors)),
{
    let ghost rows = rows_of(records@);
    let ghost total = scan_outcomes(rows, schema, budget_of(max_errors));
    let n = records.len();
    let mut out: Vec<ValidationOutcome> = Vec::new();
    let mut left = max_errors;
    let mut i: usize = 0;
    assert(rows.subrange(0, n as int) =~= rows);
    assert(outcomes_of(out@) + total =~= total);
    while i < n && left != Some(0usize)
        invariant
            i <= n == records@.len(),
            rows == rows_of(records@),
            total == outcomes_of(out@) + scan_outcomes(
                rows.subrange(i as int, n as int),
                schema,
                budget_of(left),
            ),
            schema.wf(),
        decreases n - i,
    {
        let o = validate_record(&records[i], schema);
        let ghost ov = o@;
        let ghost prev = budget_of(left);
        let ghost tail = rows.subrange(i as int, n as int);
        assert(tail[0] == names_of(records@[i as int]@));
        assert(tail.drop_first() =~= rows.subrange(i + 1, n as int));
        left = spend_budget(left, &o);
        assert(o.failures@.len() == ov.1.len());
        assert(budget_of(left) == budget_after(prev, ov));
        let ghost before = outcomes_of(out@);
        let ghost rest = scan_outcomes(rows.subrange(i + 1, n as int), schema, budget_of(left));
        assert(scan_outcomes(tail, schema, prev) == seq![ov] + rest);
        out.push(o);
        assert(outcomes_of(out@) =~= before.push(ov));
        assert(before + (seq![ov] + rest) =~= before.push(ov) + rest);
        i = i + 1;
    }
    proof {
        if i < n {
            assert(scan_outcomes(rows.subrange(i as int, n as int), schema, Some(0nat)) =~= Seq::empty());
        } else {
            assert(rows.subrange(i as int, n as int) =~= Seq::empty());
        }
    }
    assert(outcomes_of(out@) + Seq::empty() =~= outcomes_of(out@));
    out
}

} // verus!
