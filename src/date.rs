use vstd::prelude::*;
use crate::text::{is_digit_run, chars_of, digit_run_at};

verus! {

/// A date in the shape `yyyy-MM-dd`. Only the shape is checked: a month `13` passes.
pub open spec fn is_date(s: Seq<char>) -> bool {
    &&& s.len() == 10
    &&& is_digit_run(s.subrange(0, 4))
    &&& s[4] == '-'
    &&& is_digit_run(s.subrange(5, 7))
    &&& s[7] == '-'
    &&& is_digit_run(s.subrange(8, 10))
}

/// A date and time in the shape `yyyy-MM-dd HH:mm:ss`, shape only.
pub open spec fn is_date_time(s: Seq<char>) -> bool {
    &&& s.len() == 19
    &&& is_date(s.subrange(0, 10))
    &&& s[10] == ' '
    &&& is_digit_run(s.subrange(11, 13))
    &&& s[13] == ':'
    &&& is_digit_run(s.subrange(14, 16))
    &&& s[16] == ':'
    &&& is_digit_run(s.subrange(17, 19))
}

/// A value accepted in an optional date column: empty, a date, or a date and time.
pub open spec fn is_optional_date(s: Seq<char>) -> bool {
    s.len() == 0 || is_date(s) || is_date_time(s)
}

/// Whether the first ten characters of `v` are a date.
fn date_prefix(v: &Vec<char>) -> (r: bool)
    requires
        v@.len() >= 10,
    ensures
        r == is_date(v@.subrange(0, 10)),
{
    let ghost d = v@.subrange(0, 10);
    assert(d.subrange(0, 4) =~= v@.subrange(0, 4));
    assert(d.subrange(5, 7) =~= v@.subrange(5, 7));
    assert(d.subrange(8, 10) =~= v@.subrange(8, 10));
    digit_run_at(v, 0, 4) && v[4] == '-' && digit_run_at(v, 5, 7) && v[7] == '-' && digit_run_at(
        v,
        8,
        10,
    )
}

/// Whether `value` is empty, a date `yyyy-MM-dd`, or a date and time
/// `yyyy-MM-dd HH:mm:ss`; each part is checked for its count of digits only.
pub fn is_valid_optional_date(value: &str) -> (r: bool)
    ensures
        r == is_optional_date(value@),
{
    let v = chars_of(value);
    let n = v.len();
    if n == 0 {
        return true;
    }
    if n == 10 {
        assert(v@.subrange(0, 10) =~= v@);
        return date_prefix(&v);
    }
    if n == 19 {
        return date_prefix(&v) && v[10] == ' ' && digit_run_at(&v, 11, 13) && v[13] == ':'
            && digit_run_at(&v, 14, 16) && v[16] == ':' && digit_run_at(&v, 17, 19);
    }
    false
}

} // verus!
