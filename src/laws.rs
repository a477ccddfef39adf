use vstd::prelude::*;
use crate::schema::{DynamoModel, SchemaModel, model_name, model_named};
use crate::validate::{
    expected_outcome, field_failures, field_ok, field_value, key_reach,
};
use crate::scan::{OutcomeView, scan_outcomes};

verus! {

/// The schema registered for a model has 14 columns for `siisa_morosos`, 13
/// for `personas_telefonos`, 7 for `siisa_empleadores` and 4 for
/// `siisa_empleadores_relaciones`.
pub proof fn lemma_column_counts(schema: &SchemaModel, m: DynamoModel)
    requires
        schema.describes(m),
    ensures
        schema.columns@.len() == match m {
            DynamoModel::TablaMorosos => 14nat,
            DynamoModel::PersonasTelefonos => 13nat,
            DynamoModel::Empleadores => 7nat,
            DynamoModel::EmpleadoresRelaciones => 4nat,
        },
{
    assert(schema.column_names().len() == schema.columns@.len());
}

proof fn lemma_no_failures(
    record: Seq<Seq<char>>,
    schema: &SchemaModel,
    names: Seq<Seq<char>>,
    numeric: bool,
)
    requires
        forall|i: int|
            0 <= i < names.len() ==> field_ok(numeric, field_value(record, schema, #[trigger] names[i])),
    ensures
        field_failures(record, schema, names, numeric).len() == 0,
    decreases names.len(),
{
    if names.len() > 0 {
        let d = names.drop_last();
        assert forall|i: int| 0 <= i < d.len() implies field_ok(
            numeric,
            field_value(record, schema, #[trigger] d[i]),
        ) by {
            assert(d[i] == names[i]);
        }
        lemma_no_failures(record, schema, d, numeric);
        assert(field_ok(numeric, field_value(record, schema, names[names.len() - 1])));
    }
}

/// A record with the schema's column count whose numeric fields are all
/// well-formed, and whose optional date fields are empty or well-formed,
/// passes with no failing field and with its key.
pub proof fn lemma_well_formed_record_passes(record: Seq<Seq<char>>, schema: &SchemaModel)
    requires
        schema.wf(),
        record.len() == schema.column_names().len(),
        forall|i: int|
            0 <= i < schema.numeric_names().len() ==> field_ok(
                true,
                field_value(record, schema, #[trigger] schema.numeric_names()[i]),
            ),
        forall|i: int|
            0 <= i < schema.date_names().len() ==> field_ok(
                false,
                field_value(record, schema, #[trigger] schema.date_names()[i]),
            ),
    ensures
        expected_outcome(record, schema).0,
        expected_outcome(record, schema).1.len() == 0,
        expected_outcome(record, schema).2 is Some,
{
    lemma_no_failures(record, schema, schema.numeric_names(), true);
    lemma_no_failures(record, schema, schema.date_names(), false);
    lemma_key_reach_within(schema);
}

/// Every key column of a well-formed schema lies within its columns.
pub proof fn lemma_key_reach_within(schema: &SchemaModel)
    requires
        schema.wf(),
    ensures
        key_reach(schema) <= schema.column_names().len(),
{
    crate::validate::lemma_position_in_bounds(schema.column_names(), schema.partition_key@);
    if let Some(k) = schema.sort_key_name() {
        crate::validate::lemma_position_in_bounds(schema.column_names(), k);
    }
}

/// A record one column short is flagged as a count mismatch, and still gets
/// its key exactly when it reaches the key columns.
pub proof fn lemma_short_record(record: Seq<Seq<char>>, schema: &SchemaModel)
    requires
        schema.wf(),
        record.len() + 1 == schema.column_names().len(),
    ensures
        !expected_outcome(record, schema).0,
        expected_outcome(record, schema).2 is Some <==> record.len() >= key_reach(schema),
{
}

/// Without an error limit, the outcome of each record depends on that record
/// and the schema alone: no state is carried from one record to the next.
pub proof fn lemma_scan_rowwise(records: Seq<Seq<Seq<char>>>, schema: &SchemaModel)
    ensures
        scan_outcomes(records, schema, None).len() == records.len(),
        forall|i: int|
            0 <= i < records.len() ==> scan_outcomes(records, schema, None)[i] == expected_outcome(
                #[trigger] records[i],
                schema,
            ),
    decreases records.len(),
{
    if records.len() > 0 {
        let d = records.drop_first();
        lemma_scan_rowwise(d, schema);
        let s = scan_outcomes(records, schema, None);
        assert forall|i: int| 0 <= i < records.len() implies s[i] == expected_outcome(
            #[trigger] records[i],
            schema,
        ) by {
            if i > 0 {
                assert(records[i] == d[i - 1]);
            }
        }
    }
}

/// Checking the same records against the same schema with the same limit
/// twice gives the same outcomes.
pub proof fn lemma_scan_idempotent(
    records: Seq<Seq<Seq<char>>>,
    schema: &SchemaModel,
    budget: Option<nat>,
    first: Seq<OutcomeView>,
    second: Seq<OutcomeView>,
)
    requires
        first == scan_outcomes(records, schema, budget),
        second == scan_outcomes(records, schema, budget),
    ensures
        first == second,
{
}

/// Each model is found under its own registered name.
pub proof fn lemma_lookup_by_own_name(m: DynamoModel)
    ensures
        model_named(model_name(m)) == Some(m),
{
    broadcast use vstd::string::group_string_axioms;

    reveal_strlit("siisa_morosos");
    reveal_strlit("personas_telefonos");
    reveal_strlit("siisa_empleadores");
    reveal_strlit("siisa_empleadores_relaciones");
    assert("siisa_morosos"@.len() == 13);
    assert("personas_telefonos"@.len() == 18);
    assert("siisa_empleadores"@.len() == 17);
    assert("siisa_empleadores_relaciones"@.len() == 28);
}

} // verus!
