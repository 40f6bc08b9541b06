//! The calls into the `chrono` crate that read dates and times from text.

use vstd::prelude::*;

use chrono::{DateTime, NaiveDate, NaiveDateTime, TimeZone, Utc};
use icalendar::{Component, DatePerhapsTime, Todo};

use crate::text::{digit_value, is_digit};

verus! {

/// What `Utc.datetime_from_str(text, format)` gives, as a date-time value.
pub uninterp spec fn chrono_utc_date_time(text: Seq<char>, format: Seq<char>) -> Option<DatePerhapsTime>;

/// What `NaiveDate::parse_from_str(text, format)` gives, as a date value.
pub uninterp spec fn chrono_naive_date(text: Seq<char>, format: Seq<char>) -> Option<DatePerhapsTime>;

/// What `NaiveDateTime::parse_from_str(text, format)` gives, as a floating
/// date-time value.
pub uninterp spec fn chrono_naive_date_time(text: Seq<char>, format: Seq<char>) -> Option<DatePerhapsTime>;

/// What `<DateTime<Utc> as FromStr>::from_str(text)` gives, written out as
/// `Todo::completed` writes a `COMPLETED` value.
pub uninterp spec fn chrono_utc_from_str(text: Seq<char>) -> Option<Seq<char>>;

/// The format of a UTC time stamp: the date, `T`, the time of day and `Z`.
pub open spec fn utc_stamp_format() -> Seq<char> {
    "%Y%m%dT%H%M%SZ"@
}

/// The number that the two decimal digits of `s` at `i` and `i + 1` give.
pub open spec fn two_digits(s: Seq<char>, i: int) -> int {
    (digit_value(s[i]) * 10 + digit_value(s[i + 1])) as int
}

/// A leap year of the Gregorian calendar.
pub open spec fn is_leap_year(y: int) -> bool {
    (y % 4 == 0 && y % 100 != 0) || y % 400 == 0
}

/// The number of days of month `m` (1 to 12) of year `y`.
pub open spec fn days_in_month(y: int, m: int) -> int {
    if m == 2 {
        if is_leap_year(y) {
            29
        } else {
            28
        }
    } else if m == 4 || m == 6 || m == 9 || m == 11 {
        30
    } else {
        31
    }
}

/// `text` is a UTC time stamp `YYYYMMDDTHHMMSSZ`: a date of the calendar and
/// a time of day, second below 60.
pub open spec fn utc_stamp_text(text: Seq<char>) -> bool {
    &&& text.len() == 16
    &&& forall|i: int| 0 <= i < 8 ==> is_digit(#[trigger] text[i])
    &&& text[8] == 'T'
    &&& forall|i: int| 9 <= i < 15 ==> is_digit(#[trigger] text[i])
    &&& text[15] == 'Z'
    &&& 1 <= two_digits(text, 4) <= 12
    &&& 1 <= two_digits(text, 6) <= days_in_month(
        two_digits(text, 0) * 100 + two_digits(text, 2),
        two_digits(text, 4),
    )
    &&& two_digits(text, 9) < 24
    &&& two_digits(text, 11) < 60
    &&& two_digits(text, 13) < 60
}

/// Reads a UTC date-time with `Utc.datetime_from_str` and turns it into a
/// `DatePerhapsTime::DateTime(CalendarDateTime::Utc(..))`.  The contract
/// claims that the result is the named function of its arguments, and that
/// with the time stamp format every well-formed time stamp is read, each as
/// a date-time of its own (chrono reads the four digits of `%Y` and the two
/// of each other field, and builds the date-time from exactly those fields).
#[verifier::external_body]
pub(crate) fn utc_date_time(text: &str, format: &str) -> (r: Option<DatePerhapsTime>)
    ensures
        r == chrono_utc_date_time(text@, format@),
        format@ == utc_stamp_format() && utc_stamp_text(text@) ==> r is Some,
        format@ == utc_stamp_format() && utc_stamp_text(text@) ==> forall|other: Seq<char>|
            utc_stamp_text(other) && other != text@ ==> r != #[trigger] chrono_utc_date_time(other, format@),
{
    #[allow(deprecated)]
    Utc.datetime_from_str(text, format).ok().map(DatePerhapsTime::from)
}

/// Reads a date with `NaiveDate::parse_from_str` and turns it into a
/// `DatePerhapsTime::Date`.  The contract claims only that the result is the
/// named function of its arguments.
#[verifier::external_body]
pub(crate) fn naive_date(text: &str, format: &str) -> (r: Option<DatePerhapsTime>)
    ensures
        r == chrono_naive_date(text@, format@),
{
    NaiveDate::parse_from_str(text, format).ok().map(DatePerhapsTime::from)
}

/// Reads a date-time without a zone with `NaiveDateTime::parse_from_str` and
/// turns it into a `DatePerhapsTime::DateTime(CalendarDateTime::Floating(..))`.
/// The contract claims only that the result is the named function of its
/// arguments.
#[verifier::external_body]
pub(crate) fn naive_date_time(text: &str, format: &str) -> (r: Option<DatePerhapsTime>)
    ensures
        r == chrono_naive_date_time(text@, format@),
{
    NaiveDateTime::parse_from_str(text, format).ok().map(DatePerhapsTime::from)
}

/// Reads a UTC time with `<DateTime<Utc> as FromStr>::from_str` and writes
/// it as `Todo::completed` writes a `COMPLETED` value.  The contract claims
/// only that the result is the named function of the text.
#[verifier::external_body]
pub(crate) fn utc_from_str(text: &str) -> (r: Option<String>)
    ensures
        match r {
            Some(v) => chrono_utc_from_str(text@) == Some(v@),
            None => chrono_utc_from_str(text@) is None,
        },
{
    text.parse::<DateTime<Utc>>().ok().and_then(
        |dt| Todo::new().completed(dt).property_value("COMPLETED").map(String::from),
    )
}

} // verus!
