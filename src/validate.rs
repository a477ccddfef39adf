use vstd::prelude::*;
use crate::schema::{SchemaModel, SchemaError, names_of};
use crate::text::{trim, trimmed};
use crate::number::{is_dynamodb_number, is_valid_dynamodb_number};
use crate::date::{is_optional_date, is_valid_optional_date};

verus! {

/// Index of the first occurrence of `x` in `s`, or the length of `s` when absent.
pub open spec fn position_of(s: Seq<Seq<char>>, x: Seq<char>) -> nat
    decreases s.len(),
{
    if s.len() == 0 || s[0] == x {
        0
    } else {
        1 + position_of(s.drop_first(), x)
    }
}

proof fn lemma_position_of(s: Seq<Seq<char>>, x: Seq<char>, k: int)
    requires
        0 <= k <= s.len(),
        forall|j: int| 0 <= j < k ==> #[trigger] s[j] != x,
        k == s.len() || s[k] == x,
    ensures
        position_of(s, x) == k,
    decreases k,
{
    if k > 0 {
        let t = s.drop_first();
        assert forall|j: int| 0 <= j < k - 1 implies #[trigger] t[j] != x by {
            assert(t[j] == s[j + 1]);
        }
        lemma_position_of(t, x, k - 1);
    }
}

/// A name found in a list lies at its position.
pub proof fn lemma_position_in_bounds(s: Seq<Seq<char>>, x: Seq<char>)
    requires
        s.contains(x),
    ensures
        position_of(s, x) < s.len(),
        s[position_of(s, x) as int] == x,
    decreases s.len(),
{
    if s[0] != x {
        let i = choose|i: int| 0 <= i < s.len() && s[i] == x;
        assert(s.drop_first()[i - 1] == x);
        lemma_position_in_bounds(s.drop_first(), x);
    }
}

/// Position of `name` among `columns`, or their count when it is absent.
pub fn column_position(columns: &Vec<String>, name: &String) -> (r: usize)
    ensures
        r == position_of(names_of(columns@), name@),
        r <= columns@.len(),
{
    let ghost s = names_of(columns@);
    let mut i: usize = 0;
    while i < columns.len()
        invariant
            i <= columns@.len(),
            s == names_of(columns@),
            forall|j: int| 0 <= j < i ==> #[trigger] s[j] != name@,
        decreases columns@.len() - i,
    {
        if columns[i] == *name {
            proof {
                lemma_position_of(s, name@, i as int);
            }
            return i;
        }
        i = i + 1;
    }
    proof {
        lemma_position_of(s, name@, i as int);
    }
    i
}

/// Position of the partition key column.
pub open spec fn partition_index(schema: &SchemaModel) -> nat {
    position_of(schema.column_names(), schema.partition_key@)
}

/// Shortest record that reaches every key column.
pub open spec fn key_reach(schema: &SchemaModel) -> nat {
    let p = partition_index(schema);
    match schema.sort_key_name() {
        Some(k) => {
            let q = position_of(schema.column_names(), k);
            if p < q { q + 1 } else { p + 1 }
        },
        None => p + 1,
    }
}

/// The display key `{Partition=value}` or `{Partition=value,Sort=value}`
/// of a record that reaches its key columns. Values are taken as they stand.
pub open spec fn key_display(record: Seq<Seq<char>>, schema: &SchemaModel) -> Seq<char> {
    let cols = schema.column_names();
    let pk = schema.partition_key@;
    let head = "{"@ + pk + "="@ + record[position_of(cols, pk) as int];
    match schema.sort_key_name() {
        Some(k) => head + ","@ + k + "="@ + record[position_of(cols, k) as int] + "}"@,
        None => head + "}"@,
    }
}

/// Builds the display key of `record`: `{Partition=value[,Sort=value]}`.
/// Fails when the record is too short to reach the key columns, whatever
/// else is wrong with it.
pub fn extract_key(record: &Vec<String>, schema: &SchemaModel) -> (r: Result<String, SchemaError>)
    requires
        schema.wf(),
    ensures
        match r {
            Ok(k) => record@.len() >= key_reach(schema) && k@ == key_display(names_of(record@), schema),
            Err(e) => record@.len() < key_reach(schema) && e == SchemaError::ExtractionError {
                needed: key_reach(schema) as usize,
                found: record.len(),
            },
        },
{
    proof {
        assert(schema.column_names().len() == schema.columns@.len());
        lemma_position_in_bounds(schema.column_names(), schema.partition_key@);
        if let Some(k) = schema.sort_key_name() {
            lemma_position_in_bounds(schema.column_names(), k);
        }
    }
    let ncols = schema.columns.len();
    let p = column_position(&schema.columns, &schema.partition_key);
    let needed: usize = match &schema.sort_key {
        Some(k) => {
            let q = column_position(&schema.columns, k);
            if p < q { q + 1 } else { p + 1 }
        },
        None => p + 1,
    };
    if record.len() < needed {
        return Err(SchemaError::ExtractionError { needed, found: record.len() });
    }
    let mut key = String::from_str("{");
    key.append(schema.partition_key.as_str());
    key.append("=");
    key.append(record[p].as_str());
    match &schema.sort_key {
        Some(k) => {
            let q = column_position(&schema.columns, k);
            key.append(",");
            key.append(k.as_str());
            key.append("=");
            key.append(record[q].as_str());
        },
        None => {},
    }
    key.append("}");
    Ok(key)
}

/// A field whose value breaks its column's grammar.
#[derive(Debug, PartialEq, Eq)]
pub struct FieldFailure {
    pub column: String,
    pub value: String,
}

impl View for FieldFailure {
    type V = (Seq<char>, Seq<char>);

    open spec fn view(&self) -> (Seq<char>, Seq<char>) {
        (self.column@, self.value@)
    }
}

/// The views of a list of field failures.
pub open spec fn failures_of(v: Seq<FieldFailure>) -> Seq<(Seq<char>, Seq<char>)> {
    v.map_values(|f: FieldFailure| f@)
}

/// What the check of one record found: whether its column count matches, each
/// field that breaks its grammar, and its display key when it reaches its key columns.
#[derive(Debug, PartialEq, Eq)]
pub struct ValidationOutcome {
    pub column_count_matches: bool,
    pub failures: Vec<FieldFailure>,
    pub key: Option<String>,
}

impl View for ValidationOutcome {
    type V = (bool, Seq<(Seq<char>, Seq<char>)>, Option<Seq<char>>);

    open spec fn view(&self) -> (bool, Seq<(Seq<char>, Seq<char>)>, Option<Seq<char>>) {
        (
            self.column_count_matches,
            failures_of(self.failures@),
            match self.key {
                Some(k) => Some(k@),
                None => None,
            },
        )
    }
}

/// The trimmed value of column `name` in `record`; empty when the record is
/// too short to hold it.
pub open spec fn field_value(record: Seq<Seq<char>>, schema: &SchemaModel, name: Seq<char>) -> Seq<char> {
    let i = position_of(schema.column_names(), name);
    if i < record.len() {
        trimmed(record[i as int])
    } else {
        Seq::empty()
    }
}

/// Whether a trimmed value meets its column's grammar: the numeric grammar,
/// or else the optional-date grammar.
pub open spec fn field_ok(numeric: bool, value: Seq<char>) -> bool {
    if numeric {
        is_dynamodb_number(value)
    } else {
        is_optional_date(value)
    }
}

/// Each of the columns `names`, in order, whose value in `record` breaks the
/// grammar, with that value.
pub open spec fn field_failures(
    record: Seq<Seq<char>>,
    schema: &SchemaModel,
    names: Seq<Seq<char>>,
    numeric: bool,
) -> Seq<(Seq<char>, Seq<char>)>
    decreases names.len(),
{
    if names.len() == 0 {
        Seq::empty()
    } else {
        let prev = field_failures(record, schema, names.drop_last(), numeric);
        let v = field_value(record, schema, names.last());
        if field_ok(numeric, v) {
            prev
        } else {
            prev.push((names.last(), v))
        }
    }
}

/// The outcome of checking `record` against `schema`: the column count, the
/// numeric columns then the date columns that fail, and the display key.
pub open spec fn expected_outcome(record: Seq<Seq<char>>, schema: &SchemaModel) -> (
    bool,
    Seq<(Seq<char>, Seq<char>)>,
    Option<Seq<char>>,
) {
    (
        record.len() == schema.column_names().len(),
        field_failures(record, schema, schema.numeric_names(), true) + field_failures(
            record,
            schema,
            schema.date_names(),
            false,
        ),
        if record.len() >= key_reach(schema) {
            Some(key_display(record, schema))
        } else {
            None
        },
    )
}

/// Whether a trimmed value meets the numeric grammar (`numeric`) or the
/// optional-date grammar.
pub fn check_value(numeric: bool, value: &str) -> (r: bool)
    ensures
        r == field_ok(numeric, value@),
{
    if numeric {
        is_valid_dynamodb_number(value)
    } else {
        is_valid_optional_date(value)
    }
}

fn field_value_of(record: &Vec<String>, schema: &SchemaModel, name: &String) -> (r: String)
    ensures
        r@ == field_value(names_of(record@), schema, name@),
{
    let i = column_position(&schema.columns, name);
    if i < record.len() {
        trim(record[i].as_str())
    } else {
        String::new()
    }
}

fn check_fields(
    record: &Vec<String>,
    schema: &SchemaModel,
    names: &Vec<String>,
    numeric: bool,
    out: &mut Vec<FieldFailure>,
)
    ensures
        failures_of(final(out)@) == failures_of(old(out)@) + field_failures(
            names_of(record@),
            schema,
            names_of(names@),
            numeric,
        ),
{
    let ghost rec = names_of(record@);
    let ghost ns = names_of(names@);
    let ghost start = failures_of(out@);
    let mut i: usize = 0;
    assert(ns.subrange(0, 0) =~= Seq::<Seq<char>>::empty());
    assert(start + Seq::empty() =~= start);
    while i < names.len()
        invariant
            i <= names@.len(),
            rec == names_of(record@),
            ns == names_of(names@),
            failures_of(out@) == start + field_failures(rec, schema, ns.subrange(0, i as int), numeric),
        decreases names@.len() - i,
    {
        let v = field_value_of(record, schema, &names[i]);
        let ghost prefix = ns.subrange(0, i as int);
        let ghost next = ns.subrange(0, i + 1);
        assert(next.drop_last() =~= prefix);
        assert(next.last() == names@[i as int]@);
        let ghost before = failures_of(out@);
        let ghost acc = field_failures(rec, schema, prefix, numeric);
        if !check_value(numeric, v.as_str()) {
            let f = FieldFailure { column: names[i].clone(), value: v };
            out.push(f);
            assert(failures_of(out@) =~= before.push(f@));
            assert(start + acc.push(f@) =~= (start + acc).push(f@));
        }
        i = i + 1;
    }
    assert(ns.subrange(0, names@.len() as int) =~= ns);
}

/// Checks one record against `schema`: its column count, each numeric
/// column's trimmed value against the numeric grammar, each optional date
/// column's trimmed value against the date grammar, and its display key. A
/// field beyond the end of a short record counts as empty.
pub fn validate_record(record: &Vec<String>, schema: &SchemaModel) -> (r: ValidationOutcome)
    requires
        schema.wf(),
    ensures
        r@ == expected_outcome(names_of(record@), schema),
{
    let mut failures: Vec<FieldFailure> = Vec::new();
    assert(failures_of(failures@) =~= Seq::empty());
    check_fields(record, schema, &schema.numeric_columns, true, &mut failures);
    check_fields(record, schema, &schema.date_columns, false, &mut failures);
    let key = match extract_key(record, schema) {
        Ok(k) => Some(k),
        Err(_) => None,
    };
    let r = ValidationOutcome {
        column_count_matches: record.len() == schema.columns.len(),
        failures,
        key,
    };
    assert(r@.1 =~= expected_outcome(names_of(record@), schema).1);
    r
}

/// Whether `value`, once trimmed, is a well-formed number.
pub fn is_valid_dynamodb_number_local(value: &str) -> (r: bool)
    ensures
        r == is_dynamodb_number(trimmed(value@)),
{
    let v = trim(value);
    is_valid_dynamodb_number(v.as_str())
}

/// The errors that checking `record` against `schema` reports, in order: a
/// column-count mismatch, then one per failing field, then a key that cannot
/// be reached.
pub fn record_errors(record: &Vec<String>, schema: &SchemaModel) -> (r: Vec<SchemaError>)
    requires
        schema.wf(),
    ensures
        ({
            let o = expected_outcome(names_of(record@), schema);
            let c: int = if o.0 { 0 } else { 1 };
            let k: int = if o.2 is Some { 0 } else { 1 };
            &&& r@.len() == c + o.1.len() + k
            &&& !o.0 ==> r@[0] == (SchemaError::ColumnCountMismatch {
                expected: schema.columns@.len() as usize,
                found: record@.len() as usize,
            })
            &&& forall|i: int|
                0 <= i < o.1.len() ==> (#[trigger] r@[c + i] matches SchemaError::FieldInvalid {
                    column,
                    value,
                } && column@ == o.1[i].0 && value@ == o.1[i].1)
            &&& o.2 is None ==> r@[c + o.1.len()] == (SchemaError::ExtractionError {
                needed: key_reach(schema) as usize,
                found: record@.len() as usize,
            })
        }),
{
    let o = validate_record(record, schema);
    let ghost ov = o@;
    let mut r: Vec<SchemaError> = Vec::new();
    if !o.column_count_matches {
        r.push(SchemaError::ColumnCountMismatch { expected: schema.columns.len(), found: record.len() });
    }
    let ghost c: int = if ov.0 { 0 } else { 1 };
    let n = o.failures.len();
    let mut i: usize = 0;
    while i < n
        invariant
            i <= n == o.failures@.len(),
            ov == o@,
            c == (if ov.0 { 0int } else { 1int }),
            r@.len() == c + i,
            !ov.0 ==> r@[0] == (SchemaError::ColumnCountMismatch {
                expected: schema.columns@.len() as usize,
                found: record@.len() as usize,
            }),
            forall|j: int|
                0 <= j < i ==> (#[trigger] r@[c + j] matches SchemaError::FieldInvalid {
                    column,
                    value,
                } && column@ == ov.1[j].0 && value@ == ov.1[j].1),
        decreases n - i,
    {
        let f = &o.failures[i];
        r.push(SchemaError::FieldInvalid { column: f.column.clone(), value: f.value.clone() });
        i = i + 1;
    }
    if o.key.is_none() {
        match extract_key(record, schema) {
            Err(e) => r.push(e),
            Ok(_) => {},
        }
    }
    r
}

} // verus!
