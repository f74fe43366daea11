//! Calendar dates of the proleptic Gregorian calendar and their weekday,
//! computed without any locale.
use vstd::prelude::*;

use vstd::arithmetic::div_mod::{
    lemma_fundamental_div_mod, lemma_fundamental_div_mod_converse_div, lemma_mod_multiples_vanish,
};

verus! {

/// A calendar date without time of day.
#[derive(Clone, Copy, Debug, PartialEq, Eq, Structural)]
pub struct Date {
    pub year: i32,
    pub month: u32,
    pub day: u32,
}

/// Day of the week, Monday first.
#[derive(Clone, Copy, Debug, PartialEq, Eq, Structural)]
pub enum Weekday {
    Monday,
    Tuesday,
    Wednesday,
    Thursday,
    Friday,
    Saturday,
    Sunday,
}

pub open spec fn is_leap(y: int) -> bool {
    (y % 4 == 0 && y % 100 != 0) || y % 400 == 0
}

pub open spec fn month_length(y: int, m: int) -> int {
    if m == 2 {
        if is_leap(y) {
            29
        } else {
            28
        }
    } else if m == 4 || m == 6 || m == 9 || m == 11 {
        30
    } else {
        31
    }
}

/// Days of the year `y` before the first of month `m`.
pub open spec fn days_before_month(y: int, m: int) -> int
    decreases m,
{
    if m <= 1 {
        0
    } else {
        days_before_month(y, m - 1) + month_length(y, m - 1)
    }
}

/// Days from 1 January of year 1 to 1 January of year `y`: 365 for each
/// year, plus one for each leap year among them.
pub open spec fn days_before_year(y: int) -> int {
    let p = y - 1;
    365 * p + p / 4 - p / 100 + p / 400
}

/// `d` names a day of the calendar.
pub open spec fn is_valid_date(d: Date) -> bool {
    &&& 1 <= d.month <= 12
    &&& 1 <= d.day <= month_length(d.year as int, d.month as int)
}

/// Days elapsed since 1 January of year 1.
pub open spec fn day_number(d: Date) -> int {
    days_before_year(d.year as int) + days_before_month(d.year as int, d.month as int) + d.day - 1
}

/// Position in the week, Monday being `0`: 1 January of year 1 was a Monday.
pub open spec fn weekday_index(d: Date) -> int {
    day_number(d) % 7
}

pub open spec fn weekday_at(i: int) -> Weekday {
    if i == 0 {
        Weekday::Monday
    } else if i == 1 {
        Weekday::Tuesday
    } else if i == 2 {
        Weekday::Wednesday
    } else if i == 3 {
        Weekday::Thursday
    } else if i == 4 {
        Weekday::Friday
    } else if i == 5 {
        Weekday::Saturday
    } else {
        Weekday::Sunday
    }
}

pub fn is_leap_year(y: i32) -> (r: bool)
    ensures
        r == is_leap(y as int),
{
    // Leap years repeat every 400 years: test a non-negative year of the
    // same cycle.
    let z: u64 = (y as i64 + 400 * 6_000_000) as u64;
    proof {
        lemma_mod_multiples_vanish(600_000_000int, y as int, 4);
        lemma_mod_multiples_vanish(24_000_000int, y as int, 100);
        lemma_mod_multiples_vanish(6_000_000int, y as int, 400);
    }
    (z % 4 == 0 && z % 100 != 0) || z % 400 == 0
}

pub fn days_in_month(y: i32, m: u32) -> (r: u32)
    ensures
        r == month_length(y as int, m as int),
{
    if m == 2 {
        if is_leap_year(y) {
            29
        } else {
            28
        }
    } else if m == 4 || m == 6 || m == 9 || m == 11 {
        30
    } else {
        31
    }
}

impl Date {
    /// The date, or `None` where no such day exists.
    pub fn new(year: i32, month: u32, day: u32) -> (r: Option<Date>)
        ensures
            r matches Some(d) ==> d == (Date { year, month, day }),
            r is Some <==> is_valid_date(Date { year, month, day }),
    {
        if 1 <= month && month <= 12 && 1 <= day && day <= days_in_month(year, month) {
            Some(Date { year, month, day })
        } else {
            None
        }
    }
}

fn days_before_month_exec(y: i32, m: u32) -> (r: u64)
    requires
        1 <= m <= 12,
    ensures
        r == days_before_month(y as int, m as int),
        r <= 335,
{
    reveal_with_fuel(days_before_month, 13);
    let leap: u64 = if is_leap_year(y) {
        1
    } else {
        0
    };
    if m == 1 {
        0
    } else if m == 2 {
        31
    } else if m == 3 {
        59 + leap
    } else if m == 4 {
        90 + leap
    } else if m == 5 {
        120 + leap
    } else if m == 6 {
        151 + leap
    } else if m == 7 {
        181 + leap
    } else if m == 8 {
        212 + leap
    } else if m == 9 {
        243 + leap
    } else if m == 10 {
        273 + leap
    } else if m == 11 {
        304 + leap
    } else {
        334 + leap
    }
}

/// Shifting a year by `400 * k` shifts each leap-year quotient exactly.
proof fn lemma_shifted_quotient(p: int, k: int, d: int)
    requires
        0 < d,
        400int % d == 0,
    ensures
        (p + 400 * k) / d == p / d + (400int / d) * k,
{
    lemma_fundamental_div_mod(p, d);
    lemma_fundamental_div_mod(400, d);
    assert(p + 400 * k == d * (p / d + (400int / d) * k) + p % d) by (nonlinear_arith)
        requires
            p == d * (p / d) + p % d,
            400int == d * (400int / d),
    ;
    lemma_fundamental_div_mod_converse_div(p + 400 * k, d, p / d + (400int / d) * k, p % d);
}

/// Weekday of a date, Monday to Sunday.
pub fn weekday_of(date: &Date) -> (r: Weekday)
    requires
        is_valid_date(*date),
    ensures
        r == weekday_at(weekday_index(*date)),
{
    // Years repeat their weekdays every 400 years (146097 days, a whole
    // number of weeks): shift by such a period so that every quotient is
    // taken of a non-negative number.
    let k: u64 = 6_000_000;
    let p: u64 = (date.year as i64 - 1 + 400 * 6_000_000) as u64;
    let days: u64 = 365 * p + p / 4 - p / 100 + p / 400 + days_before_month_exec(
        date.year,
        date.month,
    ) + date.day as u64 - 1;
    proof {
        let q = date.year as int - 1;
        lemma_shifted_quotient(q, k as int, 4);
        lemma_shifted_quotient(q, k as int, 100);
        lemma_shifted_quotient(q, k as int, 400);
        assert(days == day_number(*date) + 7 * (20871 * k));
        lemma_mod_multiples_vanish(20871 * k, day_number(*date), 7);
    }
    let w = days % 7;
    if w == 0 {
        Weekday::Monday
    } else if w == 1 {
        Weekday::Tuesday
    } else if w == 2 {
        Weekday::Wednesday
    } else if w == 3 {
        Weekday::Thursday
    } else if w == 4 {
        Weekday::Friday
    } else if w == 5 {
        Weekday::Saturday
    } else {
        Weekday::Sunday
    }
}

pub open spec fn is_digit(c: char) -> bool {
    '0' <= c <= '9'
}

/// The number written by the decimal digits `s[from..to]`.
pub open spec fn digits_value(s: Seq<char>, from: int, to: int) -> int
    decreases to - from,
{
    if to <= from {
        0
    } else {
        digits_value(s, from, to - 1) * 10 + (s[to - 1] as int - '0' as int)
    }
}

/// `s[from..to]` holds decimal digits only.
pub open spec fn all_digits(s: Seq<char>, from: int, to: int) -> bool {
    forall|i: int| from <= i < to ==> is_digit(#[trigger] s[i])
}

/// The date that `s` writes as `YYYY-MM-DD`, if it is one.
pub open spec fn iso_date_of(s: Seq<char>) -> Option<Date> {
    if s.len() == 10 && s[4] == '-' && s[7] == '-' && all_digits(s, 0, 4) && all_digits(s, 5, 7)
        && all_digits(s, 8, 10) {
        let d = Date {
            year: digits_value(s, 0, 4) as i32,
            month: digits_value(s, 5, 7) as u32,
            day: digits_value(s, 8, 10) as u32,
        };
        if is_valid_date(d) {
            Some(d)
        } else {
            None
        }
    } else {
        None
    }
}

proof fn lemma_digits_bound(s: Seq<char>, from: int, to: int)
    requires
        from <= to,
        all_digits(s, from, to),
    ensures
        0 <= digits_value(s, from, to) < pow10(to - from),
    decreases to - from,
{
    if to > from {
        lemma_digits_bound(s, from, to - 1);
        assert(is_digit(s[to - 1]));
    }
}

pub open spec fn pow10(n: int) -> int
    decreases n,
{
    if n <= 0 {
        1
    } else {
        10 * pow10(n - 1)
    }
}

/// The value of the digits `text[from..to]`, where they are all digits.
fn read_digits(text: &str, from: usize, to: usize) -> (r: Option<u32>)
    requires
        from <= to <= text@.len(),
        to - from <= 4,
    ensures
        r == if all_digits(text@, from as int, to as int) {
            Some(digits_value(text@, from as int, to as int) as u32)
        } else {
            None::<u32>
        },
{
    let mut value: u32 = 0;
    let mut i = from;
    while i < to
        invariant
            from <= i <= to <= text@.len(),
            to - from <= 4,
            all_digits(text@, from as int, i as int),
            value == digits_value(text@, from as int, i as int),
            value < pow10(i - from),
        decreases to - i,
    {
        let c = text.get_char(i);
        if c < '0' || c > '9' {
            return None;
        }
        proof {
            reveal_with_fuel(pow10, 5);
            assert(pow10(i - from) <= 1000);
        }
        value = value * 10 + (c as u32 - '0' as u32);
        i = i + 1;
    }
    proof {
        lemma_digits_bound(text@, from as int, to as int);
    }
    Some(value)
}

impl Date {
    /// Reads a date written `YYYY-MM-DD`.
    pub fn parse(text: &str) -> (r: Option<Date>)
        ensures
            r == iso_date_of(text@),
    {
        if text.unicode_len() != 10 || text.get_char(4) != '-' || text.get_char(7) != '-' {
            return None;
        }
        let year = read_digits(text, 0, 4);
        let month = read_digits(text, 5, 7);
        let day = read_digits(text, 8, 10);
        match (year, month, day) {
            (Some(y), Some(m), Some(d)) => {
                proof {
                    reveal_with_fuel(pow10, 5);
                    lemma_digits_bound(text@, 0, 4);
                }
                Date::new(y as i32, m, d)
            },
            _ => None,
        }
    }
}

/// The calendar day after `d`.
pub open spec fn next_date(d: Date) -> Date {
    if (d.day as int) < month_length(d.year as int, d.month as int) {
        Date { day: (d.day + 1) as u32, ..d }
    } else if d.month < 12 {
        Date { month: (d.month + 1) as u32, day: 1, ..d }
    } else {
        Date { year: (d.year + 1) as i32, month: 1, day: 1 }
    }
}

/// One more than `x` crosses a multiple of `d` exactly when `x + 1` is one.
proof fn lemma_quotient_step(x: int, d: int)
    requires
        d > 0,
    ensures
        (x + 1) / d == x / d + if (x + 1) % d == 0 {
            1int
        } else {
            0int
        },
{
    lemma_fundamental_div_mod(x, d);
    lemma_fundamental_div_mod(x + 1, d);
    let q = x / d;
    let r = x % d;
    assert(x + 1 == q * d + r + 1) by (nonlinear_arith)
        requires
            x == d * q + r,
    ;
    assert(q * d + d == (q + 1) * d) by (nonlinear_arith);
    if r == d - 1 {
        lemma_fundamental_div_mod_converse_div(x + 1, d, q + 1, 0);
        vstd::arithmetic::div_mod::lemma_fundamental_div_mod_converse_mod(x + 1, d, q + 1, 0);
    } else {
        lemma_fundamental_div_mod_converse_div(x + 1, d, q, r + 1);
        vstd::arithmetic::div_mod::lemma_fundamental_div_mod_converse_mod(x + 1, d, q, r + 1);
    }
}

/// A year adds 366 days when it is a leap year and 365 otherwise.
pub proof fn lemma_year_length(y: int)
    ensures
        days_before_year(y + 1) == days_before_year(y) + if is_leap(y) {
            366int
        } else {
            365int
        },
{
    lemma_quotient_step(y - 1, 4);
    lemma_quotient_step(y - 1, 100);
    lemma_quotient_step(y - 1, 400);
    // A multiple of 400 is one of 100, and a multiple of 100 one of 4.
    assert(y % 400 == 0 ==> y % 100 == 0) by {
        lemma_fundamental_div_mod(y, 400);
        lemma_fundamental_div_mod(y, 100);
        if y % 400 == 0 {
            vstd::arithmetic::div_mod::lemma_fundamental_div_mod_converse_mod(y, 100, 4 * (y / 400), 0);
        }
    }
    assert(y % 100 == 0 ==> y % 4 == 0) by {
        lemma_fundamental_div_mod(y, 100);
        if y % 100 == 0 {
            vstd::arithmetic::div_mod::lemma_fundamental_div_mod_converse_mod(y, 4, 25 * (y / 100), 0);
        }
    }
}

/// Consecutive days have consecutive day numbers: the day count, and so
/// the weekday, advances by one from each date to the next.
pub proof fn lemma_next_day(d: Date)
    requires
        is_valid_date(d),
        d.year < i32::MAX,
    ensures
        is_valid_date(next_date(d)),
        day_number(next_date(d)) == day_number(d) + 1,
        weekday_index(next_date(d)) == (weekday_index(d) + 1) % 7,
{
    reveal_with_fuel(days_before_month, 13);
    if d.day as int == month_length(d.year as int, d.month as int) && d.month == 12 {
        lemma_year_length(d.year as int);
    }
    vstd::arithmetic::div_mod::lemma_add_mod_noop(day_number(d), 1, 7);
    assert(1int % 7 == 1);
    assert(weekday_index(d) % 7 == weekday_index(d)) by {
        vstd::arithmetic::div_mod::lemma_mod_twice(day_number(d), 7);
    }
}

} // verus!
