use vstd::prelude::*;
use chrono::{Datelike, NaiveDate, NaiveDateTime, Timelike};
use crate::digits::padded;
use crate::text::{is_digit, is_digit_run, chars_of, digit_run_at};

verus! {

/// A calendar date and a time of day, as plain numbers.
#[derive(Clone, Copy, Debug, PartialEq, Eq, Structural)]
pub struct DateTimeParts {
    pub year: i32,
    pub month: u32,
    pub day: u32,
    pub hour: u32,
    pub minute: u32,
    pub second: u32,
}

/// Earliest year a parsed date can hold.
pub const MIN_PARSED_YEAR: i32 = -262143;

/// Latest year a parsed date can hold.
pub const MAX_PARSED_YEAR: i32 = 262142;

impl DateTimeParts {
    /// Each field within its range.
    pub open spec fn wf(&self) -> bool {
        &&& MIN_PARSED_YEAR <= self.year <= MAX_PARSED_YEAR
        &&& 1 <= self.month <= 12
        &&& 1 <= self.day <= 31
        &&& self.hour < 24
        &&& self.minute < 60
        &&& self.second < 60
    }

    /// A date that exists in the calendar, at a valid time of day.
    pub open spec fn is_real(&self) -> bool {
        self.wf() && self.day <= month_days(self.year as int, self.month as int)
    }

    /// `self` comes strictly before `other`.
    pub open spec fn precedes(&self, other: &DateTimeParts) -> bool {
        if self.year != other.year {
            self.year < other.year
        } else if self.month != other.month {
            self.month < other.month
        } else if self.day != other.day {
            self.day < other.day
        } else if self.hour != other.hour {
            self.hour < other.hour
        } else if self.minute != other.minute {
            self.minute < other.minute
        } else {
            self.second < other.second
        }
    }

    /// Whether `self` comes strictly before `other`.
    pub fn is_before(&self, other: &DateTimeParts) -> (r: bool)
        ensures
            r == self.precedes(other),
    {
        if self.year != other.year {
            self.year < other.year
        } else if self.month != other.month {
            self.month < other.month
        } else if self.day != other.day {
            self.day < other.day
        } else if self.hour != other.hour {
            self.hour < other.hour
        } else if self.minute != other.minute {
            self.minute < other.minute
        } else {
            self.second < other.second
        }
    }

    /// The date as `yyyy-MM-dd`.
    pub fn to_date_text(&self) -> (r: String)
        requires
            self.is_real(),
        ensures
            r@ == date_text(*self),
    {
        date_string(self)
    }

    /// The date and time as `MM/dd/yyyy hh:mm:ss AM`.
    pub fn to_us_text(&self) -> (r: String)
        requires
            self.is_real(),
        ensures
            r@ == us_text(*self),
    {
        us_string(self)
    }

    /// The date and time as `yyyy-MM-ddTHH:mm:ss`.
    pub fn to_iso(&self) -> (r: String)
        requires
            self.is_real(),
        ensures
            r@ == iso_text(*self),
    {
        iso_string(self)
    }
}

/// A year as at least four digits, with a sign when it is below zero or above 9999.
pub open spec fn year_text(y: int) -> Seq<char> {
    if 0 <= y <= 9999 {
        padded(y as nat, 4)
    } else if y > 9999 {
        seq!['+'] + padded(y as nat, 4)
    } else {
        seq!['-'] + padded((-y) as nat, 4)
    }
}

/// `yyyy-MM-dd`
pub open spec fn date_text(d: DateTimeParts) -> Seq<char> {
    year_text(d.year as int) + seq!['-'] + padded(d.month as nat, 2) + seq!['-'] + padded(
        d.day as nat,
        2,
    )
}

/// `yyyy-MM-ddTHH:mm:ss`
pub open spec fn iso_text(d: DateTimeParts) -> Seq<char> {
    date_text(d) + seq!['T'] + padded(d.hour as nat, 2) + seq![':'] + padded(d.minute as nat, 2)
        + seq![':'] + padded(d.second as nat, 2)
}

/// Whether `year`-`month`-`day` is a date that chrono can hold: the year in
/// its range, and a day that exists in that month.
pub fn date_exists(year: i32, month: u32, day: u32) -> (r: bool)
    ensures
        r == (MIN_PARSED_YEAR <= year <= MAX_PARSED_YEAR && 1 <= month <= 12 && 1 <= day
            <= month_days(year as int, month as int)),
{
    MIN_PARSED_YEAR <= year && year <= MAX_PARSED_YEAR && 1 <= month && month <= 12 && 1 <= day
        && day <= days_in_month(year, month)
}

/// The hour on a twelve-hour clock: 12, then 1 to 11.
pub open spec fn hour12(h: int) -> int {
    if h % 12 == 0 {
        12
    } else {
        h % 12
    }
}

/// `MM/dd/yyyy hh:mm:ss AM`, with `PM` from noon on.
pub open spec fn us_text(d: DateTimeParts) -> Seq<char> {
    padded(d.month as nat, 2) + seq!['/'] + padded(d.day as nat, 2) + seq!['/'] + year_text(
        d.year as int,
    ) + seq![' '] + padded(hour12(d.hour as int) as nat, 2) + seq![':'] + padded(d.minute as nat, 2)
        + seq![':'] + padded(d.second as nat, 2) + if d.hour < 12 {
        seq![' ', 'A', 'M']
    } else {
        seq![' ', 'P', 'M']
    }
}

/// Relies on chrono's `NaiveDateTime::format` with `%m/%d/%Y %I:%M:%S %p`:
/// month and day as two digits, the year as `date_string` writes it, the
/// twelve-hour clock as two digits, and `AM` or `PM`.
#[verifier::external_body]
fn us_string(d: &DateTimeParts) -> (r: String)
    requires
        d.is_real(),
    ensures
        r@ == us_text(*d),
{
    let date = NaiveDate::from_ymd_opt(d.year, d.month, d.day).unwrap();
    let t = date.and_hms_opt(d.hour, d.minute, d.second).unwrap();
    t.format("%m/%d/%Y %I:%M:%S %p").to_string()
}

/// Relies on chrono's `NaiveDate::format` with `%Y-%m-%d`: the year as four or
/// more digits, signed when outside 0 to 9999, then month and day as two digits.
#[verifier::external_body]
fn date_string(d: &DateTimeParts) -> (r: String)
    requires
        d.is_real(),
    ensures
        r@ == date_text(*d),
{
    NaiveDate::from_ymd_opt(d.year, d.month, d.day).unwrap().format("%Y-%m-%d").to_string()
}

/// Relies on chrono's `NaiveDateTime::format` with `%Y-%m-%dT%H:%M:%S`: the
/// date as `date_string` writes it, then each time field as two digits.
#[verifier::external_body]
fn iso_string(d: &DateTimeParts) -> (r: String)
    requires
        d.is_real(),
    ensures
        r@ == iso_text(*d),
{
    let date = NaiveDate::from_ymd_opt(d.year, d.month, d.day).unwrap();
    let t = date.and_hms_opt(d.hour, d.minute, d.second).unwrap();
    t.format("%Y-%m-%dT%H:%M:%S").to_string()
}

/// What chrono reads from `s` under the strftime-style format `fmt`, if anything.
pub uninterp spec fn parsed_datetime(s: Seq<char>, fmt: Seq<char>) -> Option<DateTimeParts>;

/// Relies on chrono's `NaiveDateTime::parse_from_str`, read back through
/// `Datelike` and `Timelike`: the date and time that `s` spells under `fmt`,
/// a day that exists, each field in the range that those traits document.
#[verifier::external_body]
fn parse_datetime(s: &str, fmt: &str) -> (r: Option<DateTimeParts>)
    ensures
        r == parsed_datetime(s@, fmt@),
        r matches Some(d) ==> d.is_real(),
{
    match NaiveDateTime::parse_from_str(s, fmt) {
        Ok(d) => Some(DateTimeParts {
            year: d.year(),
            month: d.month(),
            day: d.day(),
            hour: d.hour(),
            minute: d.minute(),
            second: d.second(),
        }),
        Err(_) => None,
    }
}

/// `a` when it holds a value, else `b`.
pub open spec fn first_some(a: Option<DateTimeParts>, b: Option<DateTimeParts>) -> Option<DateTimeParts> {
    if a is Some {
        a
    } else {
        b
    }
}

/// The date-time that `s` spells in the first of the accepted formats that
/// reads it: ISO with or without seconds, then day-first, then month-first,
/// each with or without seconds.
pub open spec fn iso_source(s: Seq<char>) -> Option<DateTimeParts> {
    first_some(
        parsed_datetime(s, "%Y-%m-%dT%H:%M:%S"@),
        first_some(
            parsed_datetime(s, "%Y-%m-%dT%H:%M"@),
            first_some(
                parsed_datetime(s, "%d/%m/%Y %H:%M:%S"@),
                first_some(
                    parsed_datetime(s, "%d/%m/%Y %H:%M"@),
                    first_some(
                        parsed_datetime(s, "%m/%d/%Y %H:%M:%S"@),
                        parsed_datetime(s, "%m/%d/%Y %H:%M"@),
                    ),
                ),
            ),
        ),
    )
}

/// Why a date could not be converted.
#[derive(Debug, PartialEq, Eq)]
pub enum DateError {
    /// No accepted format reads the value.
    InvalidFormat { value: String },
}

/// Rewrites a date-time given as ISO (`yyyy-MM-ddTHH:mm[:ss]`), day-first
/// (`dd/MM/yyyy HH:mm[:ss]`) or month-first (`MM/dd/yyyy HH:mm[:ss]`), tried
/// in that order, as `yyyy-MM-ddTHH:mm:ss`.
pub fn convert_date_dd_mm_yyyy_to_iso(date_str: &str) -> (r: Result<String, DateError>)
    ensures
        match r {
            Ok(t) => iso_source(date_str@) is Some && t@ == iso_text(iso_source(date_str@)->0),
            Err(DateError::InvalidFormat { value }) => iso_source(date_str@) is None && value@
                == date_str@,
        },
{
    let mut parsed = parse_datetime(date_str, "%Y-%m-%dT%H:%M:%S");
    if parsed.is_none() {
        parsed = parse_datetime(date_str, "%Y-%m-%dT%H:%M");
    }
    if parsed.is_none() {
        parsed = parse_datetime(date_str, "%d/%m/%Y %H:%M:%S");
    }
    if parsed.is_none() {
        parsed = parse_datetime(date_str, "%d/%m/%Y %H:%M");
    }
    if parsed.is_none() {
        parsed = parse_datetime(date_str, "%m/%d/%Y %H:%M:%S");
    }
    if parsed.is_none() {
        parsed = parse_datetime(date_str, "%m/%d/%Y %H:%M");
    }
    match parsed {
        Some(d) => Ok(d.to_iso()),
        None => Err(DateError::InvalidFormat { value: String::from_str(date_str) }),
    }
}

/// Reads a month-first date-time with a twelve-hour clock, `MM/dd/yyyy hh:mm:ss AM`.
pub fn parse_us_datetime(s: &str) -> (r: Option<DateTimeParts>)
    ensures
        r == parsed_datetime(s@, "%m/%d/%Y %I:%M:%S %p"@),
        r matches Some(d) ==> d.is_real(),
{
    parse_datetime(s, "%m/%d/%Y %I:%M:%S %p")
}

/// Whether `candidate` takes the place of the extreme found so far: when there
/// is none yet, or when it is strictly older (`find_oldest`) or strictly newer.
pub fn replaces_extreme(current: Option<DateTimeParts>, candidate: &DateTimeParts, find_oldest: bool) -> (r: bool)
    ensures
        r == match current {
            None => true,
            Some(c) => if find_oldest { candidate.precedes(&c) } else { c.precedes(candidate) },
        },
{
    match current {
        None => true,
        Some(c) => if find_oldest {
            candidate.is_before(&c)
        } else {
            c.is_before(candidate)
        },
    }
}

/// A leap year of the proleptic Gregorian calendar: divisible by 4, and not
/// by 100 unless by 400.
pub open spec fn is_leap_year(y: int) -> bool {
    let a = if y < 0 { -y } else { y };
    a % 4 == 0 && (a % 100 != 0 || a % 400 == 0)
}

/// The number of days in `month` of `year`.
pub open spec fn month_days(year: int, month: int) -> u32 {
    if month == 2 {
        if is_leap_year(year) { 29 } else { 28 }
    } else if month == 4 || month == 6 || month == 9 || month == 11 {
        30
    } else {
        31
    }
}

/// The number of days in `month` (1 to 12) of `year`.
pub fn days_in_month(year: i32, month: u32) -> (r: u32)
    ensures
        r == month_days(year as int, month as int),
{
    if month == 2 {
        let a: u64 = if year < 0 { (-(year as i64)) as u64 } else { year as u64 };
        if a % 4 == 0 && (a % 100 != 0 || a % 400 == 0) { 29 } else { 28 }
    } else if month == 4 || month == 6 || month == 9 || month == 11 {
        30
    } else {
        31
    }
}

/// The last second of `month` (1 to 12) of `year`, when chrono can hold that year.
pub fn month_end(year: i32, month: u32) -> (r: Option<DateTimeParts>)
    requires
        1 <= month <= 12,
    ensures
        r == if MIN_PARSED_YEAR <= year <= MAX_PARSED_YEAR {
            Some(
                DateTimeParts {
                    year,
                    month,
                    day: month_days(year as int, month as int),
                    hour: 23,
                    minute: 59,
                    second: 59,
                },
            )
        } else {
            None::<DateTimeParts>
        },
{
    let day = days_in_month(year, month);
    if date_exists(year, month, day) {
        Some(DateTimeParts { year, month, day, hour: 23, minute: 59, second: 59 })
    } else {
        None
    }
}

/// Whether `candidate`, of `month` of `year`, is the latest of that month seen
/// so far: it is in the month, and strictly after `last` when there is one.
pub fn replaces_last_in_month(
    last: Option<DateTimeParts>,
    candidate: &DateTimeParts,
    year: i32,
    month: u32,
) -> (r: bool)
    ensures
        r == (candidate.year == year && candidate.month == month && match last {
            None => true,
            Some(l) => l.precedes(candidate),
        }),
{
    if candidate.year != year || candidate.month != month {
        return false;
    }
    match last {
        None => true,
        Some(l) => l.is_before(candidate),
    }
}

/// The value of a digit.
pub open spec fn digit_value(c: char) -> int {
    c as int - '0' as int
}

/// The value of a run of decimal digits.
pub open spec fn digits_value(s: Seq<char>) -> int
    decreases s.len(),
{
    if s.len() == 0 {
        0
    } else {
        digits_value(s.drop_last()) * 10 + digit_value(s.last())
    }
}

/// What std's integer parsing reads from a short text: digits with an optional
/// `+`, or also `-` when `signed`.
pub open spec fn read_int(s: Seq<char>, signed: bool) -> Option<int> {
    if s.len() > 0 && s[0] == '+' && is_digit_run(s.drop_first()) {
        Some(digits_value(s.drop_first()))
    } else if signed && s.len() > 0 && s[0] == '-' && is_digit_run(s.drop_first()) {
        Some(-digits_value(s.drop_first()))
    } else if is_digit_run(s) {
        Some(digits_value(s))
    } else {
        None
    }
}

/// The calendar date that `s` spells as `dd/MM/yyyy`: ten characters, `/` at
/// the third and sixth, each part read as an integer, and a day that exists
/// in that month.
pub open spec fn dmy_date(s: Seq<char>) -> Option<DateTimeParts> {
    if s.len() == 10 && s[2] == '/' && s[5] == '/' {
        let d = read_int(s.subrange(0, 2), false);
        let m = read_int(s.subrange(3, 5), false);
        let y = read_int(s.subrange(6, 10), true);
        if d is Some && m is Some && y is Some && 1 <= m->0 <= 12 && 1 <= d->0 <= month_days(
            y->0,
            m->0,
        ) {
            Some(
                DateTimeParts {
                    year: y->0 as i32,
                    month: m->0 as u32,
                    day: d->0 as u32,
                    hour: 0,
                    minute: 0,
                    second: 0,
                },
            )
        } else {
            None
        }
    } else {
        None
    }
}

proof fn lemma_digits_value_bound(s: Seq<char>)
    requires
        forall|i: int| 0 <= i < s.len() ==> is_digit(#[trigger] s[i]),
    ensures
        0 <= digits_value(s),
        s.len() <= 1 ==> digits_value(s) <= 9,
        s.len() <= 2 ==> digits_value(s) <= 99,
        s.len() <= 3 ==> digits_value(s) <= 999,
        s.len() <= 4 ==> digits_value(s) <= 9999,
    decreases s.len(),
{
    if s.len() > 0 {
        let d = s.drop_last();
        assert forall|i: int| 0 <= i < d.len() implies is_digit(#[trigger] d[i]) by {
            assert(d[i] == s[i]);
        }
        lemma_digits_value_bound(d);
        assert(is_digit(s[s.len() - 1]));
    }
}

/// The value of the digits `v[from..to]`, at most four of them.
fn digits_value_at(v: &Vec<char>, from: usize, to: usize) -> (r: i64)
    requires
        from <= to <= v@.len(),
        to - from <= 4,
        is_digit_run(v@.subrange(from as int, to as int)),
    ensures
        r == digits_value(v@.subrange(from as int, to as int)),
{
    let mut r: i64 = 0;
    let mut i: usize = from;
    assert(v@.subrange(from as int, from as int) =~= Seq::<char>::empty());
    while i < to
        invariant
            from <= i <= to <= v@.len(),
            to - from <= 4,
            is_digit_run(v@.subrange(from as int, to as int)),
            r == digits_value(v@.subrange(from as int, i as int)),
        decreases to - i,
    {
        let ghost part = v@.subrange(from as int, i + 1);
        assert(part.drop_last() =~= v@.subrange(from as int, i as int));
        assert(v@[i as int] == v@.subrange(from as int, to as int)[i - from]);
        proof {
            assert forall|j: int| 0 <= j < part.len() implies is_digit(#[trigger] part[j]) by {
                assert(part[j] == v@.subrange(from as int, to as int)[j]);
            }
            lemma_digits_value_bound(part);
        }
        r = r * 10 + (v[i] as i64 - '0' as i64);
        i = i + 1;
    }
    r
}

/// What std's integer parsing reads from `v[from..to]`, at most four characters.
fn read_int_at(v: &Vec<char>, from: usize, to: usize, signed: bool) -> (r: Option<i64>)
    requires
        from <= to <= v@.len(),
        to - from <= 4,
    ensures
        match read_int(v@.subrange(from as int, to as int), signed) {
            Some(n) => r == Some(n as i64) && -9999 <= n <= 9999,
            None => r is None,
        },
{
    let ghost s = v@.subrange(from as int, to as int);
    if from < to && (v[from] == '+' || (signed && v[from] == '-')) {
        assert(s.drop_first() =~= v@.subrange(from + 1, to as int));
        assert(s[0] == v@[from as int]);
        if digit_run_at(v, from + 1, to) {
            let n = digits_value_at(v, from + 1, to);
            proof {
                let t = s.drop_first();
                assert forall|i: int| 0 <= i < t.len() implies is_digit(#[trigger] t[i]) by {}
                lemma_digits_value_bound(t);
            }
            if v[from] == '+' { Some(n) } else { Some(-n) }
        } else {
            proof {
                if s[0] == '+' {
                    assert(!is_digit('+'));
                } else {
                    assert(!is_digit('-'));
                }
            }
            None
        }
    } else if digit_run_at(v, from, to) {
        let n = digits_value_at(v, from, to);
        proof {
            assert forall|i: int| 0 <= i < s.len() implies is_digit(#[trigger] s[i]) by {}
            lemma_digits_value_bound(s);
        }
        Some(n)
    } else {
        None
    }
}

/// Rewrites a day-first date `dd/MM/yyyy` as `yyyy-MM-dd`, when it spells a
/// day that exists; anything else gives `None`.
pub fn try_convert_date(value: &str) -> (r: Option<String>)
    ensures
        match dmy_date(value@) {
            Some(d) => r matches Some(t) && t@ == date_text(d),
            None => r is None,
        },
{
    let v = chars_of(value);
    if v.len() != 10 || v[2] != '/' || v[5] != '/' {
        return None;
    }
    let d = read_int_at(&v, 0, 2, false);
    let m = read_int_at(&v, 3, 5, false);
    let y = read_int_at(&v, 6, 10, true);
    match (d, m, y) {
        (Some(d), Some(m), Some(y)) => {
            if m < 0 || d < 0 || !date_exists(y as i32, m as u32, d as u32) {
                return None;
            }
            let date = DateTimeParts {
                year: y as i32,
                month: m as u32,
                day: d as u32,
                hour: 0,
                minute: 0,
                second: 0,
            };
            Some(date.to_date_text())
        },
        _ => None,
    }
}

/// Days in the months of `year` before `month`.
pub open spec fn days_before_month(year: int, month: int) -> int
    decreases month,
{
    if month <= 1 {
        0
    } else {
        days_before_month(year, month - 1) + month_days(year, month - 1)
    }
}

/// Day number of a date in the proleptic Gregorian calendar, 1 January of
/// year 1 being day 1 (divisions round down).
pub open spec fn days_from_ce(year: int, month: int, day: int) -> int {
    let p = year - 1;
    p * 365 + p / 4 - p / 100 + p / 400 + days_before_month(year, month) + day
}

/// Day number of 1 January 1970.
pub open spec fn unix_epoch_day() -> int {
    719163
}

/// Seconds from the Unix epoch to `d` read as UTC, when `d` is a real date and time.
pub open spec fn utc_timestamp(d: DateTimeParts) -> Option<i64> {
    if d.is_real() {
        Some(
            ((days_from_ce(d.year as int, d.month as int, d.day as int) - unix_epoch_day()) * 86400
                + d.hour * 3600 + d.minute * 60 + d.second) as i64,
        )
    } else {
        None
    }
}

/// Relies on chrono's `NaiveDate::from_ymd_opt`, `NaiveDate::and_hms_opt` and
/// `NaiveDateTime::and_utc().timestamp()`: the Unix time of `d` as UTC, from
/// the Gregorian day count less that of 1970-01-01, or nothing when `d` names
/// no real date and time.
#[verifier::external_body]
fn timestamp_of(d: &DateTimeParts) -> (r: Option<i64>)
    ensures
        r == utc_timestamp(*d),
{
    match NaiveDate::from_ymd_opt(d.year, d.month, d.day) {
        Some(date) => match date.and_hms_opt(d.hour, d.minute, d.second) {
            Some(t) => Some(t.and_utc().timestamp()),
            None => None,
        },
        None => None,
    }
}

/// The distance in seconds between two instants.
pub open spec fn seconds_apart(a: i64, b: i64) -> int {
    if a >= b { a - b } else { b - a }
}

/// Whether `candidate` lies strictly nearer to `target` than the best
/// distance so far, or is the first with a distance at all. Also returns the
/// candidate's distance.
pub fn nearer_to(best: Option<u64>, candidate: i64, target: i64) -> (r: (bool, u64))
    ensures
        r.1 == seconds_apart(candidate, target),
        r.0 == match best {
            None => true,
            Some(b) => seconds_apart(candidate, target) < b,
        },
{
    let d: i128 = if candidate >= target {
        candidate as i128 - target as i128
    } else {
        target as i128 - candidate as i128
    };
    let d = d as u64;
    let closer = match best {
        None => true,
        Some(b) => d < b,
    };
    (closer, d)
}

/// Whether `candidate` takes the place of the record nearest to `target`,
/// whose distance so far is `best`; also returns the candidate's distance,
/// or nothing when either date-time names no real instant.
pub fn replaces_nearest(best: Option<u64>, candidate: &DateTimeParts, target: &DateTimeParts) -> (r: (
    bool,
    Option<u64>,
))
    ensures
        match (utc_timestamp(*candidate), utc_timestamp(*target)) {
            (Some(c), Some(t)) => r.1 == Some(seconds_apart(c, t) as u64) && r.0 == match best {
                None => true,
                Some(b) => seconds_apart(c, t) < b,
            },
            _ => r == (false, None::<u64>),
        },
{
    match (timestamp_of(candidate), timestamp_of(target)) {
        (Some(c), Some(t)) => {
            let (closer, d) = nearer_to(best, c, t);
            (closer, Some(d))
        },
        _ => (false, None),
    }
}

} // verus!
