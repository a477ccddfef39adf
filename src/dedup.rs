use vstd::prelude::*;
use crate::schema::names_of;
use crate::scan::rows_of;
use crate::text::chars_of;
use std::collections::{HashMap, HashSet};

verus! {

/// The field at `i` of `record`, or empty when the record is too short.
pub open spec fn field_or_empty(record: Seq<Seq<char>>, i: int) -> Seq<char> {
    if 0 <= i < record.len() {
        record[i]
    } else {
        Seq::empty()
    }
}

/// The deduplication key of a record: its partition value, then its sort
/// value when there is a sort column, each kept as a field of its own.
pub open spec fn key_fields_of(record: Seq<Seq<char>>, partition: int, sort: Option<usize>) -> Seq<
    Seq<char>,
> {
    match sort {
        Some(j) => seq![field_or_empty(record, partition), field_or_empty(record, j as int)],
        None => seq![field_or_empty(record, partition)],
    }
}

fn field_or_empty_at(record: &Vec<String>, i: usize) -> (r: String)
    ensures
        r@ == field_or_empty(names_of(record@), i as int),
{
    if i < record.len() {
        record[i].clone()
    } else {
        String::new()
    }
}

/// The deduplication key of `record`: the partition field at `partition`,
/// then the sort field at `sort`, if any. A column beyond the end of the
/// record reads as empty. Two records share a key exactly when they agree on
/// both fields.
pub fn key_fields(record: &Vec<String>, partition: usize, sort: Option<usize>) -> (r: Vec<String>)
    ensures
        names_of(r@) == key_fields_of(names_of(record@), partition as int, sort),
{
    let mut key: Vec<String> = Vec::new();
    key.push(field_or_empty_at(record, partition));
    match sort {
        Some(j) => {
            key.push(field_or_empty_at(record, j));
        },
        None => {},
    }
    assert(names_of(key@) =~= key_fields_of(names_of(record@), partition as int, sort));
    key
}

/// Why a record cannot take part in key deduplication.
#[derive(Debug, PartialEq, Eq)]
pub enum RowKeyError {
    /// The record does not have the header's number of columns.
    LengthMismatch { expected: usize, found: usize },
    /// The partition value, or the sort value, is empty.
    EmptyKey,
}

/// The deduplication key of a record that has the header's `expected_len`
/// columns and non-empty key values; else why it has none.
pub fn dynamodb_row_key(
    record: &Vec<String>,
    expected_len: usize,
    partition: usize,
    sort: Option<usize>,
) -> (r: Result<Vec<String>, RowKeyError>)
    requires
        partition < expected_len,
        sort matches Some(j) ==> j < expected_len,
    ensures
        record@.len() != expected_len ==> r == Err::<Vec<String>, RowKeyError>(
            RowKeyError::LengthMismatch { expected: expected_len, found: record@.len() as usize },
        ),
        record@.len() == expected_len && (record@[partition as int]@.len() == 0 || (sort matches Some(
            j,
        ) && record@[j as int]@.len() == 0)) ==> r == Err::<Vec<String>, RowKeyError>(
            RowKeyError::EmptyKey,
        ),
        r is Ok <==> (record@.len() == expected_len && record@[partition as int]@.len() > 0 && (
        sort matches Some(j) ==> record@[j as int]@.len() > 0)),
        r matches Ok(k) ==> names_of(k@) == key_fields_of(names_of(record@), partition as int, sort),
{
    if record.len() != expected_len {
        return Err(RowKeyError::LengthMismatch { expected: expected_len, found: record.len() });
    }
    if record[partition].as_str().is_empty() {
        return Err(RowKeyError::EmptyKey);
    }
    match sort {
        Some(j) => {
            if record[j].as_str().is_empty() {
                return Err(RowKeyError::EmptyKey);
            }
        },
        None => {},
    }
    Ok(key_fields(record, partition, sort))
}

/// Two records get the same key exactly when their partition values are equal
/// and, with a sort column, their sort values are equal too.
pub proof fn lemma_keys_keep_pairs_apart(
    a: Seq<Seq<char>>,
    b: Seq<Seq<char>>,
    partition: int,
    sort: Option<usize>,
)
    ensures
        key_fields_of(a, partition, sort) == key_fields_of(b, partition, sort) <==> (field_or_empty(
            a,
            partition,
        ) == field_or_empty(b, partition) && (sort matches Some(j) ==> field_or_empty(a, j as int)
            == field_or_empty(b, j as int))),
{
    let ka = key_fields_of(a, partition, sort);
    let kb = key_fields_of(b, partition, sort);
    if ka == kb {
        assert(ka[0] == kb[0]);
        if sort is Some {
            assert(ka[1] == kb[1]);
        }
    }
    if field_or_empty(a, partition) == field_or_empty(b, partition) && (sort matches Some(j)
        ==> field_or_empty(a, j as int) == field_or_empty(b, j as int)) {
        assert(ka =~= kb);
    }
}

/// The position of `name` in a header, if it is there.
pub fn header_position(header: &Vec<String>, name: &String) -> (r: Option<usize>)
    ensures
        match r {
            Some(i) => i < header@.len() && header@[i as int]@ == name@ && forall|j: int|
                0 <= j < i ==> #[trigger] header@[j]@ != name@,
            None => forall|j: int| 0 <= j < header@.len() ==> #[trigger] header@[j]@ != name@,
        },
{
    let mut i: usize = 0;
    while i < header.len()
        invariant
            i <= header@.len(),
            forall|j: int| 0 <= j < i ==> #[trigger] header@[j]@ != name@,
        decreases header@.len() - i,
    {
        if header[i] == *name {
            return Some(i);
        }
        i = i + 1;
    }
    None
}

/// No later record has the key of record `i`.
pub open spec fn is_last_of_key(keys: Seq<u64>, i: int) -> bool {
    forall|j: int| i < j < keys.len() ==> keys[j] != keys[i]
}

/// In order, the positions below `k` whose record is the last with its key.
pub open spec fn last_positions(keys: Seq<u64>, k: int) -> Seq<usize>
    decreases k,
{
    if k <= 0 {
        Seq::empty()
    } else {
        let p = last_positions(keys, k - 1);
        if is_last_of_key(keys, k - 1) {
            p.push((k - 1) as usize)
        } else {
            p
        }
    }
}

/// The positions, in order, of the last record of each key: what is left when
/// every record overwrites the earlier ones with its key. Records are given by
/// key number, equal numbers for equal keys.
pub fn keep_last_of_each_key(keys: &Vec<u64>) -> (r: Vec<usize>)
    ensures
        r@ == last_positions(keys@, keys@.len() as int),
{
    broadcast use vstd::std_specs::hash::group_hash_axioms;

    let n = keys.len();
    let mut last: HashMap<u64, usize> = HashMap::new();
    let mut i: usize = 0;
    while i < n
        invariant
            i <= n == keys@.len(),
            forall|id: u64|
                #[trigger] last@.contains_key(id) ==> last@[id] < i && keys@[last@[id] as int] == id
                    && forall|k: int| last@[id] < k < i ==> keys@[k] != id,
            forall|j: int| 0 <= j < i ==> last@.contains_key(#[trigger] keys@[j]),
        decreases n - i,
    {
        last.insert(keys[i], i);
        i = i + 1;
    }
    let mut r: Vec<usize> = Vec::new();
    let mut i: usize = 0;
    while i < n
        invariant
            i <= n == keys@.len(),
            forall|id: u64|
                #[trigger] last@.contains_key(id) ==> last@[id] < n && keys@[last@[id] as int] == id
                    && forall|k: int| last@[id] < k < n ==> keys@[k] != id,
            forall|j: int| 0 <= j < n ==> last@.contains_key(#[trigger] keys@[j]),
            r@ == last_positions(keys@, i as int),
        decreases n - i,
    {
        let id = keys[i];
        assert(last@.contains_key(keys@[i as int]));
        let p = match last.get(&id) {
            Some(p) => *p,
            None => n,
        };
        proof {
            let m = last@[id];
            assert(p == m);
            if m < i {
                assert(keys@[i as int] != id);
            }
            if m > i {
                assert(!is_last_of_key(keys@, i as int));
            }
        }
        if p == i {
            r.push(i);
        }
        i = i + 1;
    }
    r
}

/// No earlier record has the key of record `i`.
pub open spec fn is_first_of_key(keys: Seq<u64>, i: int) -> bool {
    forall|j: int| 0 <= j < i ==> keys[j] != keys[i]
}

/// In order, the positions below `k` whose record is the first with its key.
pub open spec fn first_positions(keys: Seq<u64>, k: int) -> Seq<usize>
    decreases k,
{
    if k <= 0 {
        Seq::empty()
    } else {
        let p = first_positions(keys, k - 1);
        if is_first_of_key(keys, k - 1) {
            p.push((k - 1) as usize)
        } else {
            p
        }
    }
}

/// The positions, in order, of the first record of each key. Records are
/// given by key number, equal numbers for equal keys.
pub fn keep_first_of_each_key(keys: &Vec<u64>) -> (r: Vec<usize>)
    ensures
        r@ == first_positions(keys@, keys@.len() as int),
{
    broadcast use vstd::std_specs::hash::group_hash_axioms;

    let n = keys.len();
    let mut seen: HashSet<u64> = HashSet::new();
    let mut r: Vec<usize> = Vec::new();
    let mut i: usize = 0;
    while i < n
        invariant
            i <= n == keys@.len(),
            forall|id: u64| #[trigger] seen@.contains(id) <==> exists|j: int| 0 <= j < i && keys@[j] == id,
            r@ == first_positions(keys@, i as int),
        decreases n - i,
    {
        let id = keys[i];
        let ghost before = seen@;
        let fresh = seen.insert(id);
        proof {
            if fresh {
                assert forall|j: int| 0 <= j < i implies keys@[j] != keys@[i as int] by {
                    if keys@[j] == id {
                        assert(before.contains(id));
                    }
                }
            } else {
                assert(before.contains(id));
                let j = choose|j: int| 0 <= j < i && keys@[j] == id;
                assert(!is_first_of_key(keys@, i as int)) by {
                    assert(keys@[j] == keys@[i as int]);
                }
            }
            assert forall|x: u64| #[trigger] seen@.contains(x) <==> exists|j: int|
                0 <= j < i + 1 && keys@[j] == x by {
                if x == id {
                    assert(keys@[i as int] == x);
                }
                if seen@.contains(x) && x != id {
                    assert(before.contains(x));
                }
            }
        }
        if fresh {
            r.push(i);
        }
        i = i + 1;
    }
    r
}

/// A hash of a text, rounded to 64 bits; only used to sort keys into buckets.
pub open spec fn text_hash(s: Seq<char>) -> u64
    decreases s.len(),
{
    if s.len() == 0 {
        0
    } else {
        ((text_hash(s.drop_last()) as int * 31 + s.last() as u32 as int + 1) % 0x1_0000_0000_0000_0000)
            as u64
    }
}

/// A hash of a list of fields, rounded to 64 bits.
pub open spec fn fields_hash(f: Seq<Seq<char>>) -> u64
    decreases f.len(),
{
    if f.len() == 0 {
        0
    } else {
        ((fields_hash(f.drop_last()) as int * 1_000_003 + text_hash(f.last()) as int + 1)
            % 0x1_0000_0000_0000_0000) as u64
    }
}

fn text_hash_of(s: &String) -> (r: u64)
    ensures
        r == text_hash(s@),
{
    let v = chars_of(s.as_str());
    let mut h: u64 = 0;
    let mut i: usize = 0;
    assert(v@.subrange(0, 0) =~= Seq::<char>::empty());
    while i < v.len()
        invariant
            i <= v@.len(),
            v@ == s@,
            h == text_hash(v@.subrange(0, i as int)),
        decreases v@.len() - i,
    {
        assert(v@.subrange(0, i + 1).drop_last() =~= v@.subrange(0, i as int));
        h = ((h as u128 * 31 + v[i] as u32 as u128 + 1) % 0x1_0000_0000_0000_0000) as u64;
        i = i + 1;
    }
    assert(v@.subrange(0, v@.len() as int) =~= v@);
    h
}

fn fields_hash_of(f: &Vec<String>) -> (r: u64)
    ensures
        r == fields_hash(names_of(f@)),
{
    let ghost fs = names_of(f@);
    let mut h: u64 = 0;
    let mut i: usize = 0;
    assert(fs.subrange(0, 0) =~= Seq::<Seq<char>>::empty());
    while i < f.len()
        invariant
            i <= f@.len(),
            fs == names_of(f@),
            h == fields_hash(fs.subrange(0, i as int)),
        decreases f@.len() - i,
    {
        assert(fs.subrange(0, i + 1).drop_last() =~= fs.subrange(0, i as int));
        let t = text_hash_of(&f[i]);
        h = ((h as u128 * 1_000_003 + t as u128 + 1) % 0x1_0000_0000_0000_0000) as u64;
        i = i + 1;
    }
    assert(fs.subrange(0, f@.len() as int) =~= fs);
    h
}

/// Whether two lists of fields are equal, field by field.
pub fn fields_equal(a: &Vec<String>, b: &Vec<String>) -> (r: bool)
    ensures
        r == (names_of(a@) == names_of(b@)),
{
    if a.len() != b.len() {
        assert(names_of(a@).len() != names_of(b@).len());
        return false;
    }
    let mut i: usize = 0;
    while i < a.len()
        invariant
            i <= a@.len() == b@.len(),
            forall|j: int| 0 <= j < i ==> a@[j]@ == b@[j]@,
        decreases a@.len() - i,
    {
        if a[i] != b[i] {
            assert(names_of(a@)[i as int] != names_of(b@)[i as int]);
            return false;
        }
        i = i + 1;
    }
    assert(names_of(a@) =~= names_of(b@));
    true
}

/// No earlier key equals key `i`.
pub open spec fn is_first_field_list(keys: Seq<Seq<Seq<char>>>, i: int) -> bool {
    forall|k: int| 0 <= k < i ==> keys[k] != keys[i]
}

fn find_in_bucket(keys: &Vec<Vec<String>>, bucket: &Vec<usize>, i: usize) -> (r: Option<usize>)
    requires
        i < keys@.len(),
        forall|t: int| 0 <= t < bucket@.len() ==> #[trigger] bucket@[t] < keys@.len(),
    ensures
        match r {
            Some(j) => bucket@.contains(j) && rows_of(keys@)[j as int] == rows_of(keys@)[i as int],
            None => forall|t: int|
                0 <= t < bucket@.len() ==> rows_of(keys@)[#[trigger] bucket@[t] as int] != rows_of(
                    keys@,
                )[i as int],
        },
{
    let mut t: usize = 0;
    while t < bucket.len()
        invariant
            i < keys@.len(),
            t <= bucket@.len(),
            forall|u: int| 0 <= u < bucket@.len() ==> #[trigger] bucket@[u] < keys@.len(),
            forall|u: int|
                0 <= u < t ==> rows_of(keys@)[#[trigger] bucket@[u] as int] != rows_of(keys@)[i as int],
        decreases bucket@.len() - t,
    {
        let j = bucket[t];
        if fields_equal(&keys[j], &keys[i]) {
            assert(bucket@[t as int] == j);
            return Some(j);
        }
        t = t + 1;
    }
    None
}

/// Numbers each key by the position of its first occurrence, so that two
/// keys get the same number exactly when they are equal field by field.
pub fn number_keys(keys: &Vec<Vec<String>>) -> (r: Vec<u64>)
    ensures
        r@.len() == keys@.len(),
        forall|i: int, j: int|
            0 <= i < r@.len() && 0 <= j < r@.len() ==> (r@[i] == r@[j] <==> rows_of(keys@)[i]
                == rows_of(keys@)[j]),
{
    broadcast use vstd::std_specs::hash::group_hash_axioms;

    let ghost ks = rows_of(keys@);
    let n = keys.len();
    let mut buckets: HashMap<u64, Vec<usize>> = HashMap::new();
    let mut r: Vec<u64> = Vec::new();
    let mut i: usize = 0;
    while i < n
        invariant
            i <= n == keys@.len(),
            ks == rows_of(keys@),
            forall|h: u64|
                #[trigger] buckets@.contains_key(h) ==> forall|t: int|
                    0 <= t < buckets@[h]@.len() ==> #[trigger] buckets@[h]@[t] < i && fields_hash(
                        ks[buckets@[h]@[t] as int],
                    ) == h && is_first_field_list(ks, buckets@[h]@[t] as int),
            forall|j: int|
                0 <= j < i && is_first_field_list(ks, j) ==> buckets@.contains_key(
                    fields_hash(#[trigger] ks[j]),
                ) && buckets@[fields_hash(ks[j])]@.contains(j as usize),
            r@.len() == i,
            forall|j: int|
                0 <= j < i ==> #[trigger] r@[j] <= j && ks[r@[j] as int] == ks[j]
                    && is_first_field_list(ks, r@[j] as int),
        decreases n - i,
    {
        assert(ks[i as int] == names_of(keys@[i as int]@));
        let h = fields_hash_of(&keys[i]);
        let found = match buckets.get(&h) {
            Some(b) => find_in_bucket(keys, b, i),
            None => None,
        };
        match found {
            Some(j) => {
                r.push(j as u64);
            },
            None => {
                proof {
                    assert forall|k: int| 0 <= k < i implies ks[k] != ks[i as int] by {
                        if ks[k] == ks[i as int] {
                            let f = r@[k] as int;
                            assert(is_first_field_list(ks, f) && ks[f] == ks[i as int]);
                            assert(buckets@.contains_key(fields_hash(ks[f])));
                            assert(buckets@[h]@.contains(f as usize));
                        }
                    }
                }
                let ghost before = buckets@;
                let mut b = match buckets.remove(&h) {
                    Some(b) => b,
                    None => Vec::new(),
                };
                b.push(i);
                buckets.insert(h, b);
                proof {
                    assert forall|j: int|
                        0 <= j < i + 1 && is_first_field_list(ks, j) implies buckets@.contains_key(
                        fields_hash(#[trigger] ks[j]),
                    ) && buckets@[fields_hash(ks[j])]@.contains(j as usize) by {
                        if j < i && fields_hash(ks[j]) == h {
                            let t = choose|t: int|
                                0 <= t < before[h]@.len() && before[h]@[t] == j as usize;
                            assert(buckets@[h]@[t] == j as usize);
                        }
                        if j == i {
                            assert(buckets@[h]@[buckets@[h]@.len() - 1] == i);
                        }
                    }
                }
                r.push(i as u64);
            },
        }
        i = i + 1;
    }
    proof {
        assert forall|a: int, b: int|
            0 <= a < r@.len() && 0 <= b < r@.len() && ks[a] == ks[b] implies r@[a] == r@[b] by {
            let fa = r@[a] as int;
            let fb = r@[b] as int;
            if fa < fb {
                assert(ks[fa] == ks[fb]);
            } else if fb < fa {
                assert(ks[fa] == ks[fb]);
            }
        }
    }
    r
}

/// No later key equals key `i`.
pub open spec fn is_last_field_list(keys: Seq<Seq<Seq<char>>>, i: int) -> bool {
    forall|j: int| i < j < keys.len() ==> #[trigger] keys[j] != keys[i]
}

/// In order, the positions below `k` whose key no later key equals.
pub open spec fn last_key_positions(keys: Seq<Seq<Seq<char>>>, k: int) -> Seq<usize>
    decreases k,
{
    if k <= 0 {
        Seq::empty()
    } else {
        let p = last_key_positions(keys, k - 1);
        if is_last_field_list(keys, k - 1) {
            p.push((k - 1) as usize)
        } else {
            p
        }
    }
}

/// In order, the positions below `k` whose key no earlier key equals.
pub open spec fn first_key_positions(keys: Seq<Seq<Seq<char>>>, k: int) -> Seq<usize>
    decreases k,
{
    if k <= 0 {
        Seq::empty()
    } else {
        let p = first_key_positions(keys, k - 1);
        if is_first_field_list(keys, k - 1) {
            p.push((k - 1) as usize)
        } else {
            p
        }
    }
}

proof fn lemma_numbered_positions(nums: Seq<u64>, keys: Seq<Seq<Seq<char>>>, k: int)
    requires
        nums.len() == keys.len(),
        0 <= k <= keys.len(),
        forall|i: int, j: int|
            0 <= i < nums.len() && 0 <= j < nums.len() ==> (nums[i] == nums[j] <==> keys[i]
                == keys[j]),
    ensures
        last_positions(nums, k) == last_key_positions(keys, k),
        first_positions(nums, k) == first_key_positions(keys, k),
    decreases k,
{
    if k > 0 {
        lemma_numbered_positions(nums, keys, k - 1);
        assert(is_last_field_list(keys, k - 1) == is_last_of_key(nums, k - 1));
        assert(is_first_field_list(keys, k - 1) == is_first_of_key(nums, k - 1));
    }
}

/// The positions, in order, of the last record of each key: what is left when
/// every record overwrites the earlier ones with an equal key.
pub fn keep_last_by_key(keys: &Vec<Vec<String>>) -> (r: Vec<usize>)
    ensures
        r@ == last_key_positions(rows_of(keys@), keys@.len() as int),
{
    let nums = number_keys(keys);
    proof {
        lemma_numbered_positions(nums@, rows_of(keys@), keys@.len() as int);
    }
    keep_last_of_each_key(&nums)
}

/// The positions, in order, of the first record of each key.
pub fn keep_first_by_key(keys: &Vec<Vec<String>>) -> (r: Vec<usize>)
    ensures
        r@ == first_key_positions(rows_of(keys@), keys@.len() as int),
{
    let nums = number_keys(keys);
    proof {
        lemma_numbered_positions(nums@, rows_of(keys@), keys@.len() as int);
    }
    keep_first_of_each_key(&nums)
}

} // verus!
