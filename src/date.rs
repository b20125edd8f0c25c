//! Observation dates.

use vstd::prelude::*;

verus! {

/// Whether `year` is a leap year of the proleptic Gregorian calendar.
pub open spec fn is_leap_year(year: int) -> bool {
    year % 4 == 0 && (year % 100 != 0 || year % 400 == 0)
}

/// Number of days of `month` (1 to 12) in `year`.
pub open spec fn days_in_month(year: int, month: int) -> int {
    if month == 2 {
        if is_leap_year(year) {
            29
        } else {
            28
        }
    } else if month == 4 || month == 6 || month == 9 || month == 11 {
        30
    } else {
        31
    }
}

/// Whether month and day name a day of the Gregorian calendar in `year`.
pub open spec fn is_calendar_date(year: int, month: int, day: int) -> bool {
    1 <= month <= 12 && 1 <= day <= days_in_month(year, month)
}

/// The Julian day number that the `time` crate gives a calendar date.
pub uninterp spec fn julian_day(year: int, month: int, day: int) -> int;

/// Relies on `time::Month::try_from` and `time::Date::from_calendar_date`,
/// which accept exactly the valid Gregorian dates of years in range, and on
/// `time::Date::to_julian_day`.
#[verifier::external_body]
fn calendar_julian_day(year: i32, month: u8, day: u8) -> (r: Option<i32>)
    requires
        0 <= year <= 9999,
    ensures
        r is Some <==> is_calendar_date(year as int, month as int, day as int),
        r matches Some(j) ==> j as int == julian_day(year as int, month as int, day as int),
{
    let month = time::Month::try_from(month).ok()?;
    time::Date::from_calendar_date(year, month, day).ok().map(|d| d.to_julian_day())
}

pub open spec fn is_digit(c: char) -> bool {
    '0' <= c <= '9'
}

/// The value of a run of decimal digits.
pub open spec fn decimal_value(s: Seq<char>) -> int
    decreases s.len(),
{
    if s.len() == 0 {
        0
    } else {
        decimal_value(s.drop_last()) * 10 + (s.last() as int - '0' as int)
    }
}

/// Whether `s` has the shape `YYYY-MM-DD`, each letter a decimal digit.
pub open spec fn is_date_shape(s: Seq<char>) -> bool {
    &&& s.len() == 10
    &&& s[4] == '-'
    &&& s[7] == '-'
    &&& forall|i: int| 0 <= i < 10 && i != 4 && i != 7 ==> is_digit(#[trigger] s[i])
}

pub open spec fn year_of(s: Seq<char>) -> int {
    decimal_value(s.subrange(0, 4))
}

pub open spec fn month_of(s: Seq<char>) -> int {
    decimal_value(s.subrange(5, 7))
}

pub open spec fn day_of(s: Seq<char>) -> int {
    decimal_value(s.subrange(8, 10))
}

/// Whether `s` is an ISO 8601 calendar date `YYYY-MM-DD` that exists.
pub open spec fn is_iso_date(s: Seq<char>) -> bool {
    is_date_shape(s) && is_calendar_date(year_of(s), month_of(s), day_of(s))
}

/// An observation date: a calendar day, held as its Julian day number.
#[derive(Debug, Clone, Copy, PartialEq, Eq, Structural, Hash, PartialOrd, Ord)]
pub struct Iso8601Date {
    /// Julian day number of the date.
    pub day: i32,
}

spec fn pow10(n: nat) -> int
    decreases n,
{
    if n == 0 {
        1
    } else {
        10 * pow10((n - 1) as nat)
    }
}

proof fn lemma_pow10_monotone(a: nat, b: nat)
    requires
        a <= b,
    ensures
        pow10(a) <= pow10(b),
        pow10(a) >= 1,
    decreases b,
{
    if b > 0 && a < b {
        lemma_pow10_monotone(a, (b - 1) as nat);
    } else if a > 0 {
        lemma_pow10_monotone((a - 1) as nat, (a - 1) as nat);
    }
}

proof fn lemma_digits_bound(s: Seq<char>)
    requires
        forall|i: int| 0 <= i < s.len() ==> is_digit(#[trigger] s[i]),
    ensures
        0 <= decimal_value(s) < pow10(s.len()),
    decreases s.len(),
{
        if s.len() > 0 {
        assert(is_digit(s[s.len() - 1]));
        lemma_digits_bound(s.drop_last());
    }
}

/// The value of the digits `s[from..to]`, at most four of them.
fn digits_value(s: &str, from: usize, to: usize) -> (r: u32)
    requires
        from <= to <= s@.len(),
        to - from <= 4,
        forall|i: int| from <= i < to ==> is_digit(#[trigger] s@[i]),
    ensures
        r as int == decimal_value(s@.subrange(from as int, to as int)),
{
    let mut r: u32 = 0;
    let mut i: usize = from;
    while i < to
        invariant
            from <= i <= to <= s@.len(),
            to - from <= 4,
            forall|k: int| from <= k < to ==> is_digit(#[trigger] s@[k]),
            r as int == decimal_value(s@.subrange(from as int, i as int)),
            r < pow10((i - from) as nat),
        decreases to - i,
    {
        let c = s.get_char(i);
        proof {
            assert(is_digit(s@[i as int]));
            let pre = s@.subrange(from as int, i as int + 1);
            assert(pre.drop_last() =~= s@.subrange(from as int, i as int));
            lemma_pow10_monotone((i - from) as nat, 3);
            reveal_with_fuel(pow10, 4);
            let k = (i - from) as nat;
            assert(pow10(k + 1) == 10 * pow10(k));
            let d = c as int - '0' as int;
            assert(r * 10 + d < pow10(k + 1)) by (nonlinear_arith)
                requires
                    r < pow10(k),
                    0 <= d <= 9,
                    pow10(k + 1) == 10 * pow10(k),
            ;
        }
        r = r * 10 + (c as u32 - '0' as u32);
        i += 1;
    }
    r
}

impl Iso8601Date {
    /// The date `year`-`month`-`day`, if that day exists.
    pub fn from_calendar_date(year: i32, month: u8, day: u8) -> (r: Option<Iso8601Date>)
        requires
            0 <= year <= 9999,
        ensures
            r is Some <==> is_calendar_date(year as int, month as int, day as int),
            r matches Some(d) ==> d.day == julian_day(
                year as int,
                month as int,
                day as int,
            ),
    {
        match calendar_julian_day(year, month, day) {
            Some(j) => Some(Iso8601Date { day: j }),
            None => None,
        }
    }

    /// Reads a date written `YYYY-MM-DD`.
    pub fn parse(s: &str) -> (r: Option<Iso8601Date>)
        ensures
            r is Some <==> is_iso_date(s@),
            r matches Some(d) ==> d.day == julian_day(
                year_of(s@),
                month_of(s@),
                day_of(s@),
            ),
    {
        if s.unicode_len() != 10 {
            return None;
        }
        let mut i: usize = 0;
        while i < 10
            invariant
                s@.len() == 10,
                i <= 10,
                forall|k: int| 0 <= k < i && k != 4 && k != 7 ==> is_digit(#[trigger] s@[k]),
            decreases 10 - i,
        {
            if i != 4 && i != 7 {
                let c = s.get_char(i);
                if !('0' <= c && c <= '9') {
                    return None;
                }
            }
            i += 1;
        }
        if s.get_char(4) != '-' || s.get_char(7) != '-' {
            return None;
        }
        let year = digits_value(s, 0, 4);
        let month = digits_value(s, 5, 7);
        let day = digits_value(s, 8, 10);
        proof {
            lemma_digits_bound(s@.subrange(0, 4));
            lemma_digits_bound(s@.subrange(5, 7));
            lemma_digits_bound(s@.subrange(8, 10));
            reveal_with_fuel(pow10, 5);
        }
        Iso8601Date::from_calendar_date(year as i32, month as u8, day as u8)
    }

    /// Whole days from `earlier` to `self`.
    pub fn days_since(&self, earlier: &Iso8601Date) -> (r: i64)
        ensures
            r == self.day - earlier.day,
    {
        self.day as i64 - earlier.day as i64
    }
}

} // verus!
