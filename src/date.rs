//! Local dates and times written `MM/DD/YYYY` and `MM/DD/YYYY HH:MM`.
use vstd::prelude::*;

verus! {

/// A calendar day of the proleptic Gregorian calendar.
#[derive(PartialEq, Eq, Structural, Clone, Copy, Debug)]
pub struct LocalDate {
    pub year: u16,
    pub month: u8,
    pub day: u8,
}

/// A calendar day with a time of day to the minute, without a time zone.
#[derive(PartialEq, Eq, Structural, Clone, Copy, Debug)]
pub struct LocalDateTime {
    pub date: LocalDate,
    pub hour: u8,
    pub minute: u8,
}

/// Why a date text was refused.
#[derive(PartialEq, Eq, Structural, Clone, Copy, Debug)]
pub enum DateError {
    /// The text does not have the shape of the format.
    Format,
    /// The text has the shape, but names no real day or time of day.
    Range,
}

pub open spec fn is_digit(c: char) -> bool {
    '0' <= c <= '9'
}

pub open spec fn digit_value(c: char) -> int {
    c as int - '0' as int
}

/// The two-digit number at `s[i]`, `s[i + 1]`.
pub open spec fn num2(s: Seq<char>, i: int) -> int {
    10 * digit_value(s[i]) + digit_value(s[i + 1])
}

/// The four-digit number at `s[i .. i + 4]`.
pub open spec fn num4(s: Seq<char>, i: int) -> int {
    100 * num2(s, i) + num2(s, i + 2)
}

pub open spec fn is_leap_year(y: int) -> bool {
    y % 4 == 0 && (y % 100 != 0 || y % 400 == 0)
}

pub open spec fn days_in_month(y: int, m: int) -> int {
    if m == 2 {
        if is_leap_year(y) {
            29
        } else {
            28
        }
    } else if m == 4 || m == 6 || m == 9 || m == 11 {
        30
    } else {
        31
    }
}

pub open spec fn valid_date(y: int, m: int, d: int) -> bool {
    1 <= m <= 12 && 1 <= d <= days_in_month(y, m)
}

/// `s` starts with `MM/DD/YYYY`, in digits and slashes.
pub open spec fn date_shape(s: Seq<char>) -> bool {
    &&& s.len() >= 10
    &&& is_digit(s[0]) && is_digit(s[1]) && s[2] == '/'
    &&& is_digit(s[3]) && is_digit(s[4]) && s[5] == '/'
    &&& is_digit(s[6]) && is_digit(s[7]) && is_digit(s[8]) && is_digit(s[9])
}

/// `s` is `MM/DD/YYYY HH:MM` in shape.
pub open spec fn date_time_shape(s: Seq<char>) -> bool {
    &&& s.len() == 16
    &&& date_shape(s)
    &&& s[10] == ' '
    &&& is_digit(s[11]) && is_digit(s[12]) && s[13] == ':'
    &&& is_digit(s[14]) && is_digit(s[15])
}

/// The day that a text of the right shape names, if any.
pub open spec fn date_named(s: Seq<char>) -> bool {
    valid_date(num4(s, 6), num2(s, 0), num2(s, 3))
}

/// The time of day that a `MM/DD/YYYY HH:MM` text names is real.
pub open spec fn time_named(s: Seq<char>) -> bool {
    num2(s, 11) <= 23 && num2(s, 14) <= 59
}

/// `d` is the day written in the first ten characters of `s`.
pub open spec fn date_is(d: LocalDate, s: Seq<char>) -> bool {
    &&& d.year == num4(s, 6)
    &&& d.month == num2(s, 0)
    &&& d.day == num2(s, 3)
}

fn digit_at(s: &str, i: usize) -> (r: Option<u16>)
    requires
        i < s@.len(),
    ensures
        r is Some == is_digit(s@[i as int]),
        r matches Some(v) ==> v == digit_value(s@[i as int]),
{
    let c = s.get_char(i);
    if '0' <= c && c <= '9' {
        Some((c as u32 - '0' as u32) as u16)
    } else {
        None
    }
}

fn two_digits(s: &str, i: usize) -> (r: Option<u16>)
    requires
        i + 1 < s@.len(),
        i < 16,
    ensures
        r is Some == (is_digit(s@[i as int]) && is_digit(s@[i + 1])),
        r matches Some(v) ==> v == num2(s@, i as int),
{
    match (digit_at(s, i), digit_at(s, i + 1)) {
        (Some(a), Some(b)) => Some(10 * a + b),
        _ => None,
    }
}

fn is_leap(y: u16) -> (r: bool)
    ensures
        r == is_leap_year(y as int),
{
    y % 4 == 0 && (y % 100 != 0 || y % 400 == 0)
}

fn month_length(y: u16, m: u16) -> (r: u16)
    ensures
        r == days_in_month(y as int, m as int),
{
    if m == 2 {
        if is_leap(y) {
            29
        } else {
            28
        }
    } else if m == 4 || m == 6 || m == 9 || m == 11 {
        30
    } else {
        31
    }
}

/// Reads the `MM/DD/YYYY` at the start of `s`, which holds at least ten
/// characters.
fn date_prefix(s: &str) -> (r: Result<LocalDate, DateError>)
    requires
        s@.len() >= 10,
    ensures
        r is Ok == (date_shape(s@) && date_named(s@)),
        r matches Ok(d) ==> date_is(d, s@),
        r == Err::<LocalDate, DateError>(DateError::Format) <==> !date_shape(s@),
{
    let month = two_digits(s, 0);
    let day = two_digits(s, 3);
    let hi = two_digits(s, 6);
    let lo = two_digits(s, 8);
    if s.get_char(2) != '/' || s.get_char(5) != '/' {
        return Err(DateError::Format);
    }
    match (month, day, hi, lo) {
        (Some(m), Some(d), Some(h), Some(l)) => {
            let y = 100 * h + l;
            if 1 <= m && m <= 12 && 1 <= d && d <= month_length(y, m) {
                Ok(LocalDate { year: y, month: m as u8, day: d as u8 })
            } else {
                Err(DateError::Range)
            }
        },
        _ => Err(DateError::Format),
    }
}

/// Reads a day written `MM/DD/YYYY`, such as `02/29/2020`.
///
/// Gives `Format` unless the text is two digits, `/`, two digits, `/`, four
/// digits; and `Range` where it is, but the month is not from 1 to 12 or the
/// day is not in that month of that year (leap years counted).
pub fn parse_date(s: &str) -> (r: Result<LocalDate, DateError>)
    ensures
        r is Ok == (s@.len() == 10 && date_shape(s@) && date_named(s@)),
        r matches Ok(d) ==> date_is(d, s@),
        r == Err::<LocalDate, DateError>(DateError::Format) <==> !(s@.len() == 10 && date_shape(
            s@,
        )),
{
    if s.unicode_len() != 10 {
        return Err(DateError::Format);
    }
    date_prefix(s)
}

/// Reads a day and a time of day written `MM/DD/YYYY HH:MM`, such as
/// `02/29/2020 13:05`.
///
/// Gives `Format` unless the text has that shape in digits, `/`, ` ` and `:`;
/// and `Range` where it has, but names no real day (see [`parse_date`]), or
/// the hour is over 23 or the minute over 59.
pub fn parse_date_time(s: &str) -> (r: Result<LocalDateTime, DateError>)
    ensures
        r is Ok == (date_time_shape(s@) && date_named(s@) && time_named(s@)),
        r matches Ok(t) ==> {
            &&& date_is(t.date, s@)
            &&& t.hour == num2(s@, 11)
            &&& t.minute == num2(s@, 14)
        },
        r == Err::<LocalDateTime, DateError>(DateError::Format) <==> !date_time_shape(s@),
{
    if s.unicode_len() != 16 {
        return Err(DateError::Format);
    }
    let hour = two_digits(s, 11);
    let minute = two_digits(s, 14);
    if s.get_char(10) != ' ' || s.get_char(13) != ':' || hour.is_none() || minute.is_none() {
        return Err(DateError::Format);
    }
    let date = date_prefix(s);
    match (date, hour, minute) {
        (Ok(d), Some(h), Some(m)) => {
            if h <= 23 && m <= 59 {
                Ok(LocalDateTime { date: d, hour: h as u8, minute: m as u8 })
            } else {
                Err(DateError::Range)
            }
        },
        (Err(e), _, _) => Err(e),
        _ => Err(DateError::Format),
    }
}

} // verus!
