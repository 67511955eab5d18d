use vstd::prelude::*;

use crate::post::is_ascii_digit;

use chrono::Datelike;

verus! {

/// A calendar day of the proleptic Gregorian calendar.
#[derive(Clone, Copy, Debug, PartialEq, Eq)]
pub struct Date {
    pub year: i32,
    pub month: u32,
    pub day: u32,
}

pub open spec fn is_leap_year(y: int) -> bool {
    (y % 4 == 0 && y % 100 != 0) || y % 400 == 0
}

pub open spec fn days_in_month(y: int, m: int) -> int {
    if m == 2 {
        if is_leap_year(y) { 29 } else { 28 }
    } else if m == 4 || m == 6 || m == 9 || m == 11 {
        30
    } else {
        31
    }
}

pub open spec fn is_valid_date(y: int, m: int, d: int) -> bool {
    1 <= m <= 12 && 1 <= d <= days_in_month(y, m)
}

pub open spec fn digit_value(c: char) -> int {
    c as int - '0' as int
}

pub open spec fn all_ascii_digits(s: Seq<char>) -> bool {
    forall|i: int| 0 <= i < s.len() ==> is_ascii_digit(#[trigger] s[i])
}

/// The year written by the first four of eight date digits.
pub open spec fn year_of_digits(s: Seq<char>) -> int {
    1000 * digit_value(s[0]) + 100 * digit_value(s[1]) + 10 * digit_value(s[2]) + digit_value(s[3])
}

/// The month written by the fifth and sixth of eight date digits.
pub open spec fn month_of_digits(s: Seq<char>) -> int {
    10 * digit_value(s[4]) + digit_value(s[5])
}

/// The day written by the last two of eight date digits.
pub open spec fn day_of_digits(s: Seq<char>) -> int {
    10 * digit_value(s[6]) + digit_value(s[7])
}

pub open spec fn digit_char(n: int) -> char {
    if n == 0 { '0' }
    else if n == 1 { '1' }
    else if n == 2 { '2' }
    else if n == 3 { '3' }
    else if n == 4 { '4' }
    else if n == 5 { '5' }
    else if n == 6 { '6' }
    else if n == 7 { '7' }
    else if n == 8 { '8' }
    else { '9' }
}

/// A date written `YYYY-MM-DD`, with zero-padded fields.
pub open spec fn iso_text(y: int, m: int, d: int) -> Seq<char> {
    seq![
        digit_char(y / 1000), digit_char(y / 100 % 10), digit_char(y / 10 % 10), digit_char(y % 10),
        '-',
        digit_char(m / 10), digit_char(m % 10),
        '-',
        digit_char(d / 10), digit_char(d % 10),
    ]
}

/// Eight date digits with dashes set after the year and the month.
pub open spec fn dashed_digits(s: Seq<char>) -> Seq<char> {
    s.subrange(0, 4) + seq!['-'] + s.subrange(4, 6) + seq!['-'] + s.subrange(6, 8)
}

impl Date {
    pub open spec fn wf(self) -> bool {
        is_valid_date(self.year as int, self.month as int, self.day as int)
    }

    /// Reads eight ASCII digits as `YYYYMMDD`; `None` where they name no date.
    pub fn from_digits(digits: &str) -> (r: Option<Date>)
        requires
            digits@.len() == 8,
            all_ascii_digits(digits@),
        ensures
            r is Some <==> is_valid_date(
                year_of_digits(digits@),
                month_of_digits(digits@),
                day_of_digits(digits@),
            ),
            r is Some ==> r->0.wf() && r->0.year == year_of_digits(digits@) && r->0.month
                == month_of_digits(digits@) && r->0.day == day_of_digits(digits@),
    {
        match parse_compact_date(digits) {
            Some((year, month, day)) => Some(Date { year, month, day }),
            None => None,
        }
    }

    /// The date written `YYYY-MM-DD`.
    pub fn iso(&self) -> (r: String)
        requires
            self.wf(),
            0 <= self.year <= 9999,
        ensures
            r@ == iso_text(self.year as int, self.month as int, self.day as int),
    {
        format_iso_date(self.year, self.month, self.day)
    }
}

/// Relies on chrono's `NaiveDate::parse_from_str` with the format `%Y%m%d`:
/// on eight ASCII digits it reads four digits of year, two of month and two of
/// day, and succeeds exactly when they name a Gregorian date.
#[verifier::external_body]
fn parse_compact_date(digits: &str) -> (r: Option<(i32, u32, u32)>)
    requires
        digits@.len() == 8,
        all_ascii_digits(digits@),
    ensures
        r is Some <==> is_valid_date(
            year_of_digits(digits@),
            month_of_digits(digits@),
            day_of_digits(digits@),
        ),
        r is Some ==> r == Some(
            (
                year_of_digits(digits@) as i32,
                month_of_digits(digits@) as u32,
                day_of_digits(digits@) as u32,
            ),
        ),
{
    let parsed = chrono::NaiveDate::parse_from_str(digits, "%Y%m%d");
    parsed.ok().map(|d| (d.year(), d.month(), d.day()))
}

/// Relies on chrono's `NaiveDate::from_ymd_opt` and its `%Y-%m-%d` format:
/// a year from 0 to 9999 is written with four digits, month and day with two,
/// all zero-padded.
#[verifier::external_body]
fn format_iso_date(year: i32, month: u32, day: u32) -> (r: String)
    requires
        is_valid_date(year as int, month as int, day as int),
        0 <= year <= 9999,
    ensures
        r@ == iso_text(year as int, month as int, day as int),
{
    match chrono::NaiveDate::from_ymd_opt(year, month, day) {
        Some(date) => date.format("%Y-%m-%d").to_string(),
        None => String::new(),
    }
}

/// The page date of a post is its name's date digits with dashes between
/// year, month and day.
pub proof fn lemma_iso_of_digits(s: Seq<char>)
    requires
        s.len() == 8,
        all_ascii_digits(s),
    ensures
        iso_text(year_of_digits(s), month_of_digits(s), day_of_digits(s)) == dashed_digits(s),
{
    let a = digit_value(s[0]);
    let b = digit_value(s[1]);
    let c = digit_value(s[2]);
    let d = digit_value(s[3]);
    assert(is_ascii_digit(s[0]) && is_ascii_digit(s[1]) && is_ascii_digit(s[2]) && is_ascii_digit(s[3]));
    assert(is_ascii_digit(s[4]) && is_ascii_digit(s[5]) && is_ascii_digit(s[6]) && is_ascii_digit(s[7]));
    let y = year_of_digits(s);
    assert(y / 1000 == a && y / 100 % 10 == b && y / 10 % 10 == c && y % 10 == d) by (nonlinear_arith)
        requires
            y == 1000 * a + 100 * b + 10 * c + d,
            0 <= a < 10,
            0 <= b < 10,
            0 <= c < 10,
            0 <= d < 10,
    ;
    let m = month_of_digits(s);
    let dd = day_of_digits(s);
    assert(m / 10 == digit_value(s[4]) && m % 10 == digit_value(s[5]));
    assert(dd / 10 == digit_value(s[6]) && dd % 10 == digit_value(s[7]));
    assert forall|i: int| 0 <= i < 8 implies digit_char(digit_value(#[trigger] s[i])) == s[i] by {
        assert(is_ascii_digit(s[i]));
    }
    assert(iso_text(y, m, dd) =~= dashed_digits(s));
}

} // verus!
