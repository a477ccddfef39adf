use vstd::prelude::*;
use crate::text::{chars_of, trim, trimmed};

verus! {

/// How many times `c` occurs in `s`.
pub open spec fn count_char(s: Seq<char>, c: char) -> nat
    decreases s.len(),
{
    if s.len() == 0 {
        0
    } else {
        count_char(s.drop_last(), c) + if s.last() == c { 1nat } else { 0nat }
    }
}

/// The number of fields in a line split at every comma, quotes not considered.
pub fn comma_field_count(line: &str) -> (r: usize)
    requires
        line@.len() < usize::MAX,
    ensures
        r == count_char(line@, ',') + 1,
{
    let v = chars_of(line);
    let mut n: usize = 1;
    let mut i: usize = 0;
    assert(v@.subrange(0, 0) =~= Seq::<char>::empty());
    while i < v.len()
        invariant
            i <= v@.len(),
            v@ == line@,
            line@.len() < usize::MAX,
            n == count_char(v@.subrange(0, i as int), ',') + 1,
            n <= i + 1,
        decreases v@.len() - i,
    {
        assert(v@.subrange(0, i + 1).drop_last() =~= v@.subrange(0, i as int));
        if v[i] == ',' {
            n = n + 1;
        }
        i = i + 1;
    }
    assert(v@.subrange(0, v@.len() as int) =~= v@);
    n
}

/// A row with nothing in it: after trimming whitespace, empty or only commas.
pub open spec fn is_blank(line: Seq<char>) -> bool {
    let t = trimmed(line);
    forall|i: int| 0 <= i < t.len() ==> #[trigger] t[i] == ','
}

/// Whether a line is blank: empty, or only whitespace and commas with no
/// other character between the commas.
pub fn is_blank_row(line: &str) -> (r: bool)
    ensures
        r == is_blank(line@),
{
    let t = trim(line);
    let v = chars_of(t.as_str());
    let mut i: usize = 0;
    while i < v.len()
        invariant
            i <= v@.len(),
            v@ == trimmed(line@),
            forall|j: int| 0 <= j < i ==> #[trigger] v@[j] == ',',
        decreases v@.len() - i,
    {
        if v[i] != ',' {
            return false;
        }
        i = i + 1;
    }
    true
}

} // verus!
