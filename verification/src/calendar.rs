//! UTC calendar days of Unix times, written `YYYY-MM-DD` as SQLite's
//! `date(seconds, 'unixepoch')` writes them.
use crate::decimal::{decimal_nat, u64_to_string};
use crate::reporting::{days_in_month, is_leap_year};
use vstd::prelude::*;

verus! {

/// Milliseconds in one day.
pub const MS_PER_DAY: u64 = 86_400_000;

/// The last year that the calendar writes.
pub const LAST_YEAR: u64 = 9999;

/// Days in `year`.
pub open spec fn year_length(year: int) -> int {
    if is_leap_year(year) {
        366
    } else {
        365
    }
}

/// Month and day of the `days`-th day (counted from zero) of `year`, counting
/// from the first day of `month`.
pub open spec fn month_and_day(year: int, month: int, days: int) -> (int, int)
    decreases 12 - month,
{
    if month >= 12 || days < days_in_month(year, month) {
        (month, days + 1)
    } else {
        month_and_day(year, month + 1, days - days_in_month(year, month))
    }
}

/// Year, month and day of the `days`-th day counted from the first day of `year`.
pub open spec fn civil_date(year: int, days: nat) -> (int, int, int)
    decreases days,
{
    if days < year_length(year) {
        let (m, d) = month_and_day(year, 1, days as int);
        (year, m, d)
    } else {
        civil_date(year + 1, (days - year_length(year)) as nat)
    }
}

/// `n` written with at least two digits.
pub open spec fn two_digits(n: int) -> Seq<char> {
    if n < 10 {
        seq!['0'] + decimal_nat(n as nat)
    } else {
        decimal_nat(n as nat)
    }
}

/// A date written `YYYY-MM-DD` (the year has four digits from year 1000 on).
pub open spec fn date_text(year: int, month: int, day: int) -> Seq<char> {
    decimal_nat(year as nat) + seq!['-'] + two_digits(month) + seq!['-'] + two_digits(day)
}

/// The UTC day of the Unix time `ms` (milliseconds), or none past the last
/// day of year 9999, where SQLite's `date` gives no value.
pub open spec fn spec_utc_date(ms: u64) -> Option<Seq<char>> {
    let (y, m, d) = civil_date(1970, (ms / MS_PER_DAY) as nat);
    if y > LAST_YEAR {
        None
    } else {
        Some(date_text(y, m, d))
    }
}

/// Law: the year of a day counted from `year` is never before `year`.
pub proof fn lemma_civil_year_from(year: int, days: nat)
    ensures
        civil_date(year, days).0 >= year,
    decreases days,
{
    if days >= year_length(year) {
        lemma_civil_year_from(year + 1, (days - year_length(year)) as nat);
    }
}

fn leap(year: u64) -> (r: bool)
    ensures
        r == is_leap_year(year as int),
{
    year % 4 == 0 && (year % 100 != 0 || year % 400 == 0)
}

fn month_length(year: u64, month: u64) -> (r: u64)
    ensures
        r == days_in_month(year as int, month as int),
{
    if month == 1 || month == 3 || month == 5 || month == 7 || month == 8 || month == 10 || month == 12 {
        31
    } else if month == 4 || month == 6 || month == 9 || month == 11 {
        30
    } else if month == 2 {
        if leap(year) {
            29
        } else {
            28
        }
    } else {
        0
    }
}

fn push_two_digits(s: &mut String, n: u64)
    ensures
        final(s)@ == old(s)@ + two_digits(n as int),
{
    if n < 10 {
        proof {
            reveal_strlit("0");
        }
        s.append("0");
    }
    let digits = u64_to_string(n);
    s.append(digits.as_str());
}

/// The UTC day of the Unix time `ms` in milliseconds, written `YYYY-MM-DD`;
/// `None` past 9999-12-31.
pub fn utc_date(ms: u64) -> (r: Option<String>)
    ensures
        match spec_utc_date(ms) {
            Some(t) => r matches Some(s) && s@ == t,
            None => r is None,
        },
{
    let ghost total = (ms / MS_PER_DAY) as nat;
    let mut days: u64 = ms / MS_PER_DAY;
    let mut year: u64 = 1970;
    loop
        invariant
            total == (ms / MS_PER_DAY) as nat,
            1970 <= year <= LAST_YEAR,
            civil_date(1970, total) == civil_date(year as int, days as nat),
        ensures
            1970 <= year <= LAST_YEAR,
            civil_date(1970, total) == civil_date(year as int, days as nat),
            days < year_length(year as int),
        decreases days,
    {
        let length: u64 = if leap(year) {
            366
        } else {
            365
        };
        if days < length {
            break;
        }
        let ghost before = civil_date(year as int, days as nat);
        days = days - length;
        year = year + 1;
        assert(before == civil_date(year as int, days as nat));
        if year > LAST_YEAR {
            proof {
                lemma_civil_year_from(year as int, days as nat);
            }
            return None;
        }
    }
    let ghost in_year = days as int;
    let mut month: u64 = 1;
    while month < 12 && days >= month_length(year, month)
        invariant
            1 <= month <= 12,
            days <= in_year,
            month_and_day(year as int, 1, in_year) == month_and_day(year as int, month as int, days as int),
        decreases 12 - month,
    {
        days = days - month_length(year, month);
        month = month + 1;
    }
    let mut text = u64_to_string(year);
    proof {
        reveal_strlit("-");
    }
    text.append("-");
    push_two_digits(&mut text, month);
    text.append("-");
    push_two_digits(&mut text, days + 1);
    Some(text)
}

} // verus!
