//! Calendar arithmetic and parsing of the `YYYY-MM-DD` prefix of an
//! ISO-8601 timestamp, as the year filter and the monthly summary need it.

use vstd::prelude::*;

verus! {

/// A calendar date as plain year/month/day numbers.
#[derive(Clone, Copy, PartialEq, Eq, Structural, Debug)]
pub struct Date {
    pub year: u32,
    pub month: u32,
    pub day: u32,
}

pub open spec fn is_leap_year(y: int) -> bool {
    y % 4 == 0 && (y % 100 != 0 || y % 400 == 0)
}

pub open spec fn spec_days_in_month(y: int, m: int) -> int {
    if m == 2 {
        if is_leap_year(y) {
            29
        } else {
            28
        }
    } else if m == 4 || m == 6 || m == 9 || m == 11 {
        30
    } else {
        31
    }
}

/// A proleptic-Gregorian date with a four-digit year.
pub open spec fn valid_date(y: int, m: int, d: int) -> bool {
    &&& 0 <= y <= 9999
    &&& 1 <= m <= 12
    &&& 1 <= d <= spec_days_in_month(y, m)
}

pub open spec fn date_wf(d: Date) -> bool {
    valid_date(d.year as int, d.month as int, d.day as int)
}

pub open spec fn is_digit(c: char) -> bool {
    48 <= c as int <= 57
}

pub open spec fn digit_val(c: char) -> int {
    c as int - 48
}

pub open spec fn year_val(s: Seq<char>) -> int {
    digit_val(s[0]) * 1000 + digit_val(s[1]) * 100 + digit_val(s[2]) * 10 + digit_val(s[3])
}

pub open spec fn month_val(s: Seq<char>) -> int {
    digit_val(s[5]) * 10 + digit_val(s[6])
}

pub open spec fn day_val(s: Seq<char>) -> int {
    digit_val(s[8]) * 10 + digit_val(s[9])
}

/// The first ten characters spell a zero-padded, valid `YYYY-MM-DD` date.
pub open spec fn date10_ok(s: Seq<char>) -> bool {
    &&& s.len() >= 10
    &&& is_digit(s[0]) && is_digit(s[1]) && is_digit(s[2]) && is_digit(s[3])
    &&& s[4] == '-'
    &&& is_digit(s[5]) && is_digit(s[6])
    &&& s[7] == '-'
    &&& is_digit(s[8]) && is_digit(s[9])
    &&& valid_date(year_val(s), month_val(s), day_val(s))
}

/// The calendar year named by a timestamp's date prefix, or `None` for a
/// string whose first ten characters are not a valid date.
pub open spec fn parsed_year(s: Seq<char>) -> Option<u32> {
    if date10_ok(s) {
        Some(year_val(s) as u32)
    } else {
        None
    }
}

pub(crate) fn digit_of(c: char) -> (r: Option<u32>)
    ensures
        r matches Some(d) ==> is_digit(c) && d == digit_val(c),
        r is None ==> !is_digit(c),
{
    let n = c as u32;
    if 48 <= n && n <= 57 {
        Some(n - 48)
    } else {
        None
    }
}

pub fn days_in_month(y: u32, m: u32) -> (r: u32)
    requires
        1 <= m <= 12,
    ensures
        r == spec_days_in_month(y as int, m as int),
{
    if m == 2 {
        if y % 4 == 0 && (y % 100 != 0 || y % 400 == 0) {
            29
        } else {
            28
        }
    } else if m == 4 || m == 6 || m == 9 || m == 11 {
        30
    } else {
        31
    }
}

/// The full date a timestamp's ten-character prefix spells, when it is
/// well formed.
pub open spec fn parsed_date(s: Seq<char>) -> Option<Date> {
    if date10_ok(s) {
        Some(
            Date {
                year: year_val(s) as u32,
                month: month_val(s) as u32,
                day: day_val(s) as u32,
            },
        )
    } else {
        None
    }
}

/// Reads the date out of an ISO-8601 timestamp by its ten-character
/// prefix; malformed or too-short prefixes give `None`.
pub fn parse_date_prefix(s: &str) -> (r: Option<Date>)
    ensures
        r == parsed_date(s@),
        r matches Some(d) ==> date_wf(d),
{
    let n = s.unicode_len();
    if n < 10 {
        return None;
    }
    let d0 = match digit_of(s.get_char(0)) {
        Some(d) => d,
        None => { return None; },
    };
    let d1 = match digit_of(s.get_char(1)) {
        Some(d) => d,
        None => { return None; },
    };
    let d2 = match digit_of(s.get_char(2)) {
        Some(d) => d,
        None => { return None; },
    };
    let d3 = match digit_of(s.get_char(3)) {
        Some(d) => d,
        None => { return None; },
    };
    if s.get_char(4) != '-' {
        return None;
    }
    let d5 = match digit_of(s.get_char(5)) {
        Some(d) => d,
        None => { return None; },
    };
    let d6 = match digit_of(s.get_char(6)) {
        Some(d) => d,
        None => { return None; },
    };
    if s.get_char(7) != '-' {
        return None;
    }
    let d8 = match digit_of(s.get_char(8)) {
        Some(d) => d,
        None => { return None; },
    };
    let d9 = match digit_of(s.get_char(9)) {
        Some(d) => d,
        None => { return None; },
    };
    let year = d0 * 1000 + d1 * 100 + d2 * 10 + d3;
    let month = d5 * 10 + d6;
    let day = d8 * 10 + d9;
    if month < 1 || month > 12 {
        return None;
    }
    if day < 1 || day > days_in_month(year, month) {
        return None;
    }
    Some(Date { year, month, day })
}

/// The calendar year named by a timestamp's date prefix.
pub fn year_of_date_prefix(s: &str) -> (r: Option<u32>)
    ensures
        r == parsed_year(s@),
{
    match parse_date_prefix(s) {
        Some(d) => Some(d.year),
        None => None,
    }
}

/// The day before, saturating at 0000-01-01 so that it can be iterated
/// from any well-formed date.
pub open spec fn spec_prev_date(d: Date) -> Date {
    if d.day > 1 {
        Date { year: d.year, month: d.month, day: (d.day - 1) as u32 }
    } else if d.month > 1 {
        Date {
            year: d.year,
            month: (d.month - 1) as u32,
            day: spec_days_in_month(d.year as int, d.month - 1) as u32,
        }
    } else if d.year > 0 {
        Date { year: (d.year - 1) as u32, month: 12, day: 31 }
    } else {
        d
    }
}

/// The date `n` days before `d`, stepping through `spec_prev_date`.
pub open spec fn date_minus(d: Date, n: nat) -> Date
    decreases n,
{
    if n == 0 {
        d
    } else {
        spec_prev_date(date_minus(d, (n - 1) as nat))
    }
}

pub fn prev_date(d: &Date) -> (r: Date)
    requires
        date_wf(*d),
    ensures
        r == spec_prev_date(*d),
        date_wf(r),
{
    if d.day > 1 {
        Date { year: d.year, month: d.month, day: d.day - 1 }
    } else if d.month > 1 {
        Date { year: d.year, month: d.month - 1, day: days_in_month(d.year, d.month - 1) }
    } else if d.year > 0 {
        Date { year: d.year - 1, month: 12, day: 31 }
    } else {
        Date { year: d.year, month: d.month, day: d.day }
    }
}

} // verus!
