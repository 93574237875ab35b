//! Calendar dates, read and written by chrono.
use vstd::prelude::*;
use chrono::Datelike;
use crate::text::decimal;

verus! {

/// The date that chrono's `NaiveDate::parse_from_str(text, "%Y-%m-%d")`
/// reads from `text`, as (year, month, day), or `None` where it fails.
pub uninterp spec fn parsed_calendar_date(text: Seq<char>) -> Option<(i32, u32, u32)>;

/// The smallest year that chrono's `NaiveDate` holds.
pub const MIN_DATE_YEAR: i32 = -262143;

/// The largest year that chrono's `NaiveDate` holds.
pub const MAX_DATE_YEAR: i32 = 262142;

/// Whether `year` is a leap year of the proleptic Gregorian calendar.
pub open spec fn is_leap_year(year: int) -> bool {
    year % 4 == 0 && (year % 100 != 0 || year % 400 == 0)
}

/// The number of days of `month` (1 to 12) in `year`.
pub open spec fn days_in_month(year: int, month: int) -> int {
    if month == 2 {
        if is_leap_year(year) {
            29
        } else {
            28
        }
    } else if month == 4 || month == 6 || month == 9 || month == 11 {
        30
    } else {
        31
    }
}

/// Whether `year`-`month`-`day` is a date that chrono's `NaiveDate` holds.
pub open spec fn is_valid_date(year: i32, month: u32, day: u32) -> bool {
    &&& MIN_DATE_YEAR <= year <= MAX_DATE_YEAR
    &&& 1 <= month <= 12
    &&& 1 <= day <= days_in_month(year as int, month as int)
}

/// `digits` with zeros before it, up to `width` characters.
pub open spec fn zero_padded(digits: Seq<char>, width: nat) -> Seq<char> {
    if digits.len() >= width {
        digits
    } else {
        Seq::new((width - digits.len()) as nat, |i: int| '0') + digits
    }
}

/// A year as chrono's "%Y" writes it: four digits at least, with a sign
/// where the year is negative or above 9999.
pub open spec fn year_text(year: int) -> Seq<char> {
    if 0 <= year < 10000 {
        zero_padded(decimal(year as nat), 4)
    } else if year < 0 {
        seq!['-'] + zero_padded(decimal((-year) as nat), 4)
    } else {
        seq!['+'] + zero_padded(decimal(year as nat), 4)
    }
}

/// The text that chrono's `format("%Y-%m")` writes for the date
/// `year`-`month`-`day`: the year, a hyphen and the two-digit month; `None`
/// where `NaiveDate::from_ymd_opt` finds no such date.
pub open spec fn year_month_text(year: i32, month: u32, day: u32) -> Option<Seq<char>> {
    if is_valid_date(year, month, day) {
        Some(year_text(year as int) + seq!['-'] + zero_padded(decimal(month as nat), 2))
    } else {
        None
    }
}

/// Reads a "%Y-%m-%d" date with chrono's `NaiveDate::parse_from_str`.
/// Trusted: the result is whatever chrono reads, named
/// `parsed_calendar_date`, and a date read is one that `NaiveDate` holds;
/// which texts chrono accepts is not stated here.
#[verifier::external_body]
pub(crate) fn parse_calendar_date(text: &str) -> (res: Option<(i32, u32, u32)>)
    ensures
        res == parsed_calendar_date(text@),
        match res {
            Some(ymd) => is_valid_date(ymd.0, ymd.1, ymd.2),
            None => true,
        },
{
    match chrono::NaiveDate::parse_from_str(text, "%Y-%m-%d") {
        Ok(d) => Some((d.year(), d.month(), d.day())),
        Err(_) => None,
    }
}

/// Writes the year and month of a date with chrono's `format("%Y-%m")`,
/// after building the date with `NaiveDate::from_ymd_opt`.
/// Trusted: the text is the one `year_month_text` states.
#[verifier::external_body]
pub(crate) fn year_month_label(year: i32, month: u32, day: u32) -> (res: Option<String>)
    ensures
        match res {
            Some(s) => year_month_text(year, month, day) == Some(s@),
            None => year_month_text(year, month, day) is None,
        },
{
    match chrono::NaiveDate::from_ymd_opt(year, month, day) {
        Some(d) => Some(d.format("%Y-%m").to_string()),
        None => None,
    }
}

} // verus!
