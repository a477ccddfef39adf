use vstd::prelude::*;
use crate::text::{is_digit, is_digit_run, chars_of, digit_run_at};

verus! {

/// The most significant digits a number may carry.
pub const MAX_SIGNIFICANT_DIGITS: usize = 38;

/// Length of the longest prefix of `s` made of ASCII digits.
pub open spec fn digit_prefix_len(s: Seq<char>) -> nat
    decreases s.len(),
{
    if s.len() > 0 && is_digit(s[0]) {
        1 + digit_prefix_len(s.drop_first())
    } else {
        0
    }
}

/// An exponent marker.
pub open spec fn is_exponent_marker(c: char) -> bool {
    c == 'e' || c == 'E'
}

/// Position of the first exponent marker in `s`, or its length when there is none.
pub open spec fn exponent_start(s: Seq<char>) -> nat
    decreases s.len(),
{
    if s.len() == 0 || is_exponent_marker(s[0]) {
        0
    } else {
        1 + exponent_start(s.drop_first())
    }
}

/// Digits, optionally followed by a single `.` and more digits.
pub open spec fn is_mantissa(m: Seq<char>) -> bool {
    let k = digit_prefix_len(m) as int;
    k > 0 && (k == m.len() || (m[k] == '.' && is_digit_run(m.subrange(k + 1, m.len() as int))))
}

/// How many digits a mantissa holds: its length, less the decimal point if it has one.
pub open spec fn mantissa_digits(m: Seq<char>) -> nat {
    if digit_prefix_len(m) == m.len() {
        m.len()
    } else {
        (m.len() - 1) as nat
    }
}

/// An exponent: a marker, an optional sign, then one or more digits.
pub open spec fn is_exponent(x: Seq<char>) -> bool {
    &&& x.len() >= 2
    &&& is_exponent_marker(x[0])
    &&& (is_digit_run(x.subrange(1, x.len() as int)) || ((x[1] == '+' || x[1] == '-')
        && is_digit_run(x.subrange(2, x.len() as int))))
}

/// `s` without its leading minus sign, if it has one.
pub open spec fn unsigned_part(s: Seq<char>) -> Seq<char> {
    if s.len() > 0 && s[0] == '-' {
        s.subrange(1, s.len() as int)
    } else {
        s
    }
}

/// The strict numeric-literal grammar: an optional `-`, a mantissa of at most
/// `MAX_SIGNIFICANT_DIGITS` digits, and an optional exponent. No `+` in front,
/// no whitespace, no separators.
pub open spec fn is_dynamodb_number(s: Seq<char>) -> bool {
    let u = unsigned_part(s);
    let p = exponent_start(u) as int;
    let m = u.subrange(0, p);
    &&& is_mantissa(m)
    &&& mantissa_digits(m) <= MAX_SIGNIFICANT_DIGITS
    &&& (p == u.len() || is_exponent(u.subrange(p, u.len() as int)))
}

proof fn lemma_digit_prefix_len(s: Seq<char>, k: int)
    requires
        0 <= k <= s.len(),
        forall|j: int| 0 <= j < k ==> is_digit(#[trigger] s[j]),
        k == s.len() || !is_digit(s[k]),
    ensures
        digit_prefix_len(s) == k,
    decreases k,
{
    if k > 0 {
        let t = s.drop_first();
        assert forall|j: int| 0 <= j < k - 1 implies is_digit(#[trigger] t[j]) by {
            assert(t[j] == s[j + 1]);
        }
        lemma_digit_prefix_len(t, k - 1);
    }
}

proof fn lemma_exponent_start(s: Seq<char>, k: int)
    requires
        0 <= k <= s.len(),
        forall|j: int| 0 <= j < k ==> !is_exponent_marker(#[trigger] s[j]),
        k == s.len() || is_exponent_marker(s[k]),
    ensures
        exponent_start(s) == k,
    decreases k,
{
    if k > 0 {
        let t = s.drop_first();
        assert forall|j: int| 0 <= j < k - 1 implies !is_exponent_marker(#[trigger] t[j]) by {
            assert(t[j] == s[j + 1]);
        }
        lemma_exponent_start(t, k - 1);
    }
}

/// End of the run of digits that starts at `from`, looking no further than `to`.
fn digit_prefix_end(v: &Vec<char>, from: usize, to: usize) -> (k: usize)
    requires
        from <= to <= v@.len(),
    ensures
        from <= k <= to,
        k - from == digit_prefix_len(v@.subrange(from as int, to as int)),
{
    let mut i: usize = from;
    while i < to && v[i] >= '0' && v[i] <= '9'
        invariant
            from <= i <= to <= v@.len(),
            forall|j: int| from <= j < i ==> is_digit(#[trigger] v@[j]),
        decreases to - i,
    {
        i = i + 1;
    }
    proof {
        let s = v@.subrange(from as int, to as int);
        assert forall|j: int| 0 <= j < i - from implies is_digit(#[trigger] s[j]) by {
            assert(s[j] == v@[from + j]);
        }
        lemma_digit_prefix_len(s, i - from);
    }
    i
}

/// Position of the first exponent marker in `v[from..to]`, or `to`.
fn exponent_marker(v: &Vec<char>, from: usize, to: usize) -> (p: usize)
    requires
        from <= to <= v@.len(),
    ensures
        from <= p <= to,
        p - from == exponent_start(v@.subrange(from as int, to as int)),
        p < to ==> is_exponent_marker(v@[p as int]),
{
    let mut i: usize = from;
    while i < to && v[i] != 'e' && v[i] != 'E'
        invariant
            from <= i <= to <= v@.len(),
            forall|j: int| from <= j < i ==> !is_exponent_marker(#[trigger] v@[j]),
        decreases to - i,
    {
        i = i + 1;
    }
    proof {
        let s = v@.subrange(from as int, to as int);
        assert forall|j: int| 0 <= j < i - from implies !is_exponent_marker(#[trigger] s[j]) by {
            assert(s[j] == v@[from + j]);
        }
        lemma_exponent_start(s, i - from);
    }
    i
}

/// Whether `value`, exactly as given, is a well-formed number: an optional `-`,
/// digits, an optional fraction, an optional exponent, at most
/// `MAX_SIGNIFICANT_DIGITS` digits before the exponent.
pub fn is_valid_dynamodb_number(value: &str) -> (r: bool)
    ensures
        r == is_dynamodb_number(value@),
{
    let v = chars_of(value);
    let n = v.len();
    let start: usize = if n > 0 && v[0] == '-' { 1 } else { 0 };
    let ghost u = unsigned_part(v@);
    assert(u =~= v@.subrange(start as int, n as int));
    let p = exponent_marker(&v, start, n);
    let k = digit_prefix_end(&v, start, p);
    let ghost m = u.subrange(0, p - start);
    assert(m =~= v@.subrange(start as int, p as int));
    let mantissa_ok = if k == start {
        false
    } else if k == p {
        true
    } else {
        assert(m[k - start] == v@[k as int]);
        assert(m.subrange(k - start + 1, m.len() as int) =~= v@.subrange(k + 1, p as int));
        v[k] == '.' && digit_run_at(&v, k + 1, p)
    };
    let digits: usize = if k == p { p - start } else { p - start - 1 };
    let exponent_ok = if p == n {
        true
    } else {
        let ghost x = u.subrange(p - start, u.len() as int);
        assert(x =~= v@.subrange(p as int, n as int));
        assert(x.subrange(1, x.len() as int) =~= v@.subrange(p + 1, n as int));
        if n - p < 2 {
            false
        } else {
            assert(x.subrange(2, x.len() as int) =~= v@.subrange(p + 2, n as int));
            digit_run_at(&v, p + 1, n) || ((v[p + 1] == '+' || v[p + 1] == '-') && digit_run_at(
                &v,
                p + 2,
                n,
            ))
        }
    };
    assert(exponent_ok == (p - start == u.len() || is_exponent(u.subrange(p - start, u.len() as int))));
    assert(mantissa_ok == is_mantissa(m));
    assert(digits == mantissa_digits(m));
    mantissa_ok && digits <= MAX_SIGNIFICANT_DIGITS && exponent_ok
}

} // verus!
