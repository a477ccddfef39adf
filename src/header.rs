use vstd::prelude::*;
use crate::schema::{SchemaModel, SchemaError, names_of};

verus! {

/// The names of `names`, in order, that `other` does not hold.
pub open spec fn absent_from(names: Seq<Seq<char>>, other: Seq<Seq<char>>) -> Seq<Seq<char>>
    decreases names.len(),
{
    if names.len() == 0 {
        Seq::empty()
    } else {
        let prev = absent_from(names.drop_last(), other);
        if other.contains(names.last()) {
            prev
        } else {
            prev.push(names.last())
        }
    }
}

/// Nothing of `names` is absent from `other` exactly when `other` holds every name of `names`.
pub proof fn lemma_absent_empty(names: Seq<Seq<char>>, other: Seq<Seq<char>>)
    ensures
        absent_from(names, other).len() == 0 <==> forall|j: int|
            0 <= j < names.len() ==> other.contains(#[trigger] names[j]),
    decreases names.len(),
{
    if names.len() > 0 {
        let d = names.drop_last();
        lemma_absent_empty(d, other);
        if absent_from(names, other).len() == 0 {
            assert forall|j: int| 0 <= j < names.len() implies other.contains(#[trigger] names[j]) by {
                if j < d.len() {
                    assert(d[j] == names[j]);
                }
            }
        }
        if forall|j: int| 0 <= j < names.len() ==> other.contains(#[trigger] names[j]) {
            assert forall|j: int| 0 <= j < d.len() implies other.contains(#[trigger] d[j]) by {
                assert(d[j] == names[j]);
            }
        }
    }
}

/// When only `names[i]` is missing from `other`, it is all that is absent.
pub proof fn lemma_absent_single(names: Seq<Seq<char>>, other: Seq<Seq<char>>, i: int)
    requires
        0 <= i < names.len(),
        !other.contains(names[i]),
        forall|j: int| 0 <= j < names.len() && j != i ==> other.contains(#[trigger] names[j]),
    ensures
        absent_from(names, other) == seq![names[i]],
    decreases names.len(),
{
    let d = names.drop_last();
    if i == names.len() - 1 {
        assert forall|j: int| 0 <= j < d.len() implies other.contains(#[trigger] d[j]) by {
            assert(d[j] == names[j]);
        }
        lemma_absent_empty(d, other);
        assert(absent_from(d, other) =~= Seq::empty());
        assert(absent_from(names, other) =~= seq![names[i]]);
    } else {
        assert(d[i] == names[i]);
        assert forall|j: int| 0 <= j < d.len() && j != i implies other.contains(#[trigger] d[j]) by {
            assert(d[j] == names[j]);
        }
        lemma_absent_single(d, other, i);
    }
}

/// Whether `name` is among `names`.
pub fn contains_name(names: &Vec<String>, name: &String) -> (r: bool)
    ensures
        r == names_of(names@).contains(name@),
{
    let ghost s = names_of(names@);
    let mut i: usize = 0;
    while i < names.len()
        invariant
            i <= names@.len(),
            s == names_of(names@),
            forall|j: int| 0 <= j < i ==> #[trigger] s[j] != name@,
        decreases names@.len() - i,
    {
        if names[i] == *name {
            assert(s[i as int] == name@);
            return true;
        }
        i = i + 1;
    }
    false
}

/// The names of `names`, in order, that `other` does not hold.
pub fn names_absent(names: &Vec<String>, other: &Vec<String>) -> (r: Vec<String>)
    ensures
        names_of(r@) == absent_from(names_of(names@), names_of(other@)),
{
    let ghost ns = names_of(names@);
    let ghost os = names_of(other@);
    let mut r: Vec<String> = Vec::new();
    let mut i: usize = 0;
    assert(names_of(r@) =~= absent_from(ns.subrange(0, 0), os));
    while i < names.len()
        invariant
            i <= names@.len(),
            ns == names_of(names@),
            os == names_of(other@),
            names_of(r@) == absent_from(ns.subrange(0, i as int), os),
        decreases names@.len() - i,
    {
        let ghost next = ns.subrange(0, i + 1);
        assert(next.drop_last() =~= ns.subrange(0, i as int));
        assert(next.last() == names@[i as int]@);
        if !contains_name(other, &names[i]) {
            let ghost before = names_of(r@);
            let n = names[i].clone();
            r.push(n);
            assert(names_of(r@) =~= before.push(n@));
        }
        i = i + 1;
    }
    assert(ns.subrange(0, names@.len() as int) =~= ns);
    r
}

/// Checks a header against `schema` as sets of names, in any order: fails with
/// the schema's columns that the header lacks and the header's names that the
/// schema lacks, each list in its own order.
pub fn validate_header(actual_columns: &Vec<String>, schema: &SchemaModel) -> (r: Result<(), SchemaError>)
    ensures
        match r {
            Ok(()) => absent_from(schema.column_names(), names_of(actual_columns@)).len() == 0
                && absent_from(names_of(actual_columns@), schema.column_names()).len() == 0,
            Err(SchemaError::HeaderMismatch { missing, extra }) => names_of(missing@)
                == absent_from(schema.column_names(), names_of(actual_columns@)) && names_of(
                extra@,
            ) == absent_from(names_of(actual_columns@), schema.column_names()) && (missing@.len()
                > 0 || extra@.len() > 0),
            Err(_) => false,
        },
{
    let missing = names_absent(&schema.columns, actual_columns);
    let extra = names_absent(actual_columns, &schema.columns);
    if missing.len() == 0 && extra.len() == 0 {
        Ok(())
    } else {
        Err(SchemaError::HeaderMismatch { missing, extra })
    }
}

/// A header that holds exactly the schema's column names, in any order, passes.
pub proof fn lemma_header_any_order(columns: Seq<Seq<char>>, actual: Seq<Seq<char>>)
    requires
        forall|x: Seq<char>| columns.contains(x) <==> actual.contains(x),
    ensures
        absent_from(columns, actual).len() == 0,
        absent_from(actual, columns).len() == 0,
{
    lemma_absent_empty(columns, actual);
    lemma_absent_empty(actual, columns);
    assert forall|j: int| 0 <= j < columns.len() implies actual.contains(#[trigger] columns[j]) by {
        assert(columns.contains(columns[j]));
    }
    assert forall|j: int| 0 <= j < actual.len() implies columns.contains(#[trigger] actual[j]) by {
        assert(actual.contains(actual[j]));
    }
}

/// A header that renames one column of a schema with distinct names, to a
/// name the schema does not have, fails naming just that column as missing
/// and just the new name as extra.
pub proof fn lemma_header_one_renamed(columns: Seq<Seq<char>>, i: int, renamed: Seq<char>)
    requires
        columns.no_duplicates(),
        0 <= i < columns.len(),
        !columns.contains(renamed),
    ensures
        absent_from(columns, columns.update(i, renamed)) == seq![columns[i]],
        absent_from(columns.update(i, renamed), columns) == seq![renamed],
{
    let actual = columns.update(i, renamed);
    assert(!actual.contains(columns[i])) by {
        if actual.contains(columns[i]) {
            let k = choose|k: int| 0 <= k < actual.len() && actual[k] == columns[i];
            assert(k != i);
            assert(columns[k] == columns[i]);
        }
    }
    assert forall|j: int| 0 <= j < columns.len() && j != i implies actual.contains(
        #[trigger] columns[j],
    ) by {
        assert(actual[j] == columns[j]);
    }
    lemma_absent_single(columns, actual, i);
    assert forall|j: int| 0 <= j < actual.len() && j != i implies columns.contains(
        #[trigger] actual[j],
    ) by {
        assert(actual[j] == columns[j]);
    }
    assert(actual[i] == renamed);
    lemma_absent_single(actual, columns, i);
}

/// Whether some name occurs twice in a header.
pub fn has_duplicate_names(names: &Vec<String>) -> (r: bool)
    ensures
        r == !names_of(names@).no_duplicates(),
{
    let ghost s = names_of(names@);
    let n = names.len();
    let mut i: usize = 0;
    while i < n
        invariant
            i <= n == names@.len(),
            s == names_of(names@),
            forall|a: int, b: int| 0 <= a < i && 0 <= b < n && a != b ==> s[a] != s[b],
        decreases n - i,
    {
        let mut j: usize = 0;
        while j < n
            invariant
                i < n == names@.len(),
                j <= n,
                s == names_of(names@),
                forall|b: int| 0 <= b < j && b != i ==> s[i as int] != s[b],
            decreases n - j,
        {
            if j != i && names[i] == names[j] {
                assert(s[i as int] == s[j as int]);
                return true;
            }
            j = j + 1;
        }
        i = i + 1;
    }
    false
}

} // verus!
