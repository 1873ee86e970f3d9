//! The calls into outside crates that read the clock and the host name.

use vstd::prelude::*;
use chrono::{Datelike, Timelike};

verus! {

/// `std::time::Instant`, carried through opaquely.
#[verifier::external_type_specification]
#[verifier::external_body]
pub struct ExInstant(std::time::Instant);

/// `Instant::now()`. The clock's reading is not stated.
#[verifier::external_body]
pub(crate) fn instant_now() -> (t: std::time::Instant) {
    std::time::Instant::now()
}

/// `start.elapsed()`. The clock's reading is not stated.
#[verifier::external_body]
pub(crate) fn elapsed_since(start: &std::time::Instant) -> (d: std::time::Duration) {
    start.elapsed()
}

/// `std::io::Error`, carried through opaquely.
#[verifier::external_type_specification]
#[verifier::external_body]
pub struct ExIoError(std::io::Error);

/// Whether chrono writes a date and time in a strftime format without error: every
/// specifier is one chrono reads, and none is one it only parses (such as `%#z`).
pub uninterp spec fn strftime_writes(format: Seq<char>) -> bool;

/// `chrono::DateTime::UNIX_EPOCH.format(format).write_to(..)` succeeding: whether chrono
/// writes a date and time in the format. Writing fails only for the format's items (an
/// unknown specifier, or one chrono only parses), not for a date and time that has a
/// date, a time and an offset, so the result is the name `strftime_writes` of the format.
#[verifier::external_body]
pub(crate) fn strftime_valid(format: &str) -> (b: bool)
    ensures
        b == strftime_writes(format@),
{
    let mut out = String::new();
    chrono::DateTime::UNIX_EPOCH.format(format).write_to(&mut out).is_ok()
}

/// A date and time as plain numbers: the calendar date, the time of day, and the offset
/// of local time from UTC in seconds.
#[derive(Debug, Clone, Copy, PartialEq, Eq, Structural)]
pub struct DateParts {
    pub year: i32,
    pub month: u32,
    pub day: u32,
    pub hour: u32,
    pub minute: u32,
    pub second: u32,
    pub nanosecond: u32,
    pub offset: i32,
}

/// Whether `year` is a leap year of the (proleptic) Gregorian calendar.
pub open spec fn leap_year(year: int) -> bool {
    (year % 4 == 0 && year % 100 != 0) || year % 400 == 0
}

/// The number of days of a month of a year.
pub open spec fn days_in_month(year: int, month: int) -> int {
    if month == 2 {
        if leap_year(year) {
            29
        } else {
            28
        }
    } else if month == 4 || month == 6 || month == 9 || month == 11 {
        30
    } else {
        31
    }
}

/// The parts name a date and time that chrono can hold: a date in its year range, a time
/// of day without a leap second, and an offset of less than a day.
pub open spec fn valid_parts(p: DateParts) -> bool {
    &&& -262143 <= p.year <= 262142
    &&& 1 <= p.month <= 12
    &&& 1 <= p.day <= days_in_month(p.year as int, p.month as int)
    &&& p.hour < 24
    &&& p.minute < 60
    &&& p.second < 60
    &&& p.nanosecond < 1_000_000_000
    &&& -86400 < p.offset < 86400
}

/// What chrono writes for a date and time in a strftime format: the text of
/// `DateTime<FixedOffset>::format(format)` for the date, the time of day and the offset
/// (the empty text where these make no date and time).
pub uninterp spec fn strftime_text(
    format: Seq<char>,
    year: i32,
    month: u32,
    day: u32,
    hour: u32,
    minute: u32,
    second: u32,
    nanosecond: u32,
    offset: i32,
) -> Seq<char>;

/// `strftime_text` of the parts.
pub open spec fn time_text_of(format: Seq<char>, p: DateParts) -> Seq<char> {
    strftime_text(format, p.year, p.month, p.day, p.hour, p.minute, p.second, p.nanosecond, p.offset)
}

/// `chrono::Local::now()` read into numbers. The reading depends on the clock, so only
/// what holds of every reading is stated: chrono's local date and time always has a valid
/// date in its range, a time of day whose nanoseconds stay below a second (a reading of
/// the system clock has no leap second), and an offset of less than a day.
#[verifier::external_body]
pub(crate) fn local_now() -> (p: DateParts)
    ensures
        valid_parts(p),
{
    let now = chrono::Local::now();
    DateParts {
        year: now.year(),
        month: now.month(),
        day: now.day(),
        hour: now.hour(),
        minute: now.minute(),
        second: now.second(),
        nanosecond: now.nanosecond(),
        offset: now.offset().local_minus_utc(),
    }
}

/// `DateTime<FixedOffset>` of the parts, then `.format(format).to_string()`; the empty
/// text where the parts make no date and time. The result is the name `strftime_text`. A
/// format that chrono writes does not fail for any date and time, as every one has a
/// date, a time and an offset.
#[verifier::external_body]
pub(crate) fn strftime_at(format: &str, p: DateParts) -> (s: String)
    requires
        strftime_writes(format@),
    ensures
        s@ == strftime_text(format@, p.year, p.month, p.day, p.hour, p.minute, p.second, p.nanosecond, p.offset),
{
    let date = chrono::NaiveDate::from_ymd_opt(p.year, p.month, p.day);
    match (date, chrono::FixedOffset::east_opt(p.offset)) {
        (Some(d), Some(o)) => match d.and_hms_nano_opt(p.hour, p.minute, p.second, p.nanosecond) {
            Some(n) => match n.and_local_timezone(o).single() {
                Some(dt) => dt.format(format).to_string(),
                None => String::new(),
            },
            None => String::new(),
        },
        _ => String::new(),
    }
}

/// `gethostname::gethostname()`, read lossily as UTF-8. The name depends on the machine,
/// so nothing is stated of it.
#[verifier::external_body]
pub(crate) fn system_hostname() -> (s: String) {
    gethostname::gethostname().to_string_lossy().to_string()
}

/// `hostname::get()`, read lossily as UTF-8, or the error of the lookup. The name depends
/// on the machine, so nothing is stated of it.
#[verifier::external_body]
pub(crate) fn lookup_hostname() -> (r: Result<String, std::io::Error>) {
    match hostname::get() {
        Ok(name) => Ok(name.to_string_lossy().into_owned()),
        Err(e) => Err(e),
    }
}

/// `std::io::Error`'s `Display` text. Nothing is stated of it: the error is opaque here.
#[verifier::external_body]
pub(crate) fn io_error_text(e: &std::io::Error) -> (s: String) {
    e.to_string()
}


/// `serde_json::Error`, carried through opaquely.
#[verifier::external_type_specification]
#[verifier::external_body]
pub struct ExJsonError(serde_json::Error);

/// `serde_json::Error`'s `Display` text. Nothing is stated of it: the error is opaque here.
#[verifier::external_body]
pub(crate) fn json_error_text(e: &serde_json::Error) -> (s: String) {
    e.to_string()
}

} // verus!
