//! The time section: the current local time in a strftime format.

use vstd::prelude::*;
use crate::text::{chars_of, string_from};
use crate::system::{strftime_writes, strftime_valid, strftime_at, local_now, time_text_of, valid_parts, DateParts};

verus! {

broadcast use vstd::string::group_string_axioms;

/// The time format has a specifier that is not known.
#[derive(Debug)]
pub enum TimeError {
    Format(()),
}

impl TimeError {
    /// The message of the error.
    pub fn to_string(&self) -> (s: String)
        ensures
            s@ == "Invalid time format"@,
    {
        string_from(&chars_of("Invalid time format"))
    }
}

/// A `[[time]]` section: the format, a variable name, and whether it is read in the
/// background.
pub struct TimeConfig {
    pub format: String,
    pub name: Option<String>,
    pub deferred: bool,
}

impl Default for TimeConfig {
    fn default() -> (c: Self)
        ensures
            c.format@ == "%H:%M:%S"@,
            c.name is None,
            !c.deferred,
    {
        TimeConfig { format: string_from(&chars_of("%H:%M:%S")), name: None, deferred: false }
    }
}

/// A conversion letter that the format check knows.
pub open spec fn known_conversion(c: char) -> bool {
    c == 'A' || c == 'a' || c == 'B' || c == 'b' || c == 'C' || c == 'c' || c == 'd' || c == 'D'
        || c == 'e' || c == 'f' || c == 'F' || c == 'H' || c == 'h' || c == 'I' || c == 'j' || c
        == 'k' || c == 'l' || c == 'M' || c == 'm' || c == 'n' || c == 'P' || c == 'p' || c == 'R'
        || c == 'r' || c == 'S' || c == 'T' || c == 't' || c == 'U' || c == 'u' || c == 'V' || c
        == 'v' || c == 'W' || c == 'w' || c == 'X' || c == 'x' || c == 'Y' || c == 'y' || c == 'Z'
        || c == 'z' || c == '%'
}

/// The first index at or after `i` that is not an ASCII digit.
pub open spec fn digits_end(t: Seq<char>, i: int) -> int
    decreases t.len() - i,
{
    if 0 <= i < t.len() && '0' <= t[i] <= '9' {
        digits_end(t, i + 1)
    } else {
        i
    }
}

/// Every `%` of `t` from `i` on starts a known specifier: `%`, optional digits, then a
/// known conversion letter.
pub open spec fn specifiers_ok(t: Seq<char>, i: int) -> bool
    decreases t.len() - i,
{
    if i < 0 || i >= t.len() {
        true
    } else if t[i] == '%' {
        let j = digits_end(t, i + 1);
        i < j < t.len() && known_conversion(t[j]) && specifiers_ok(t, j + 1)
    } else {
        specifiers_ok(t, i + 1)
    }
}

/// Whether every specifier of the format is known.
pub fn check_specifiers(format: &str) -> (b: bool)
    ensures
        b == specifiers_ok(format@, 0),
{
    let t = chars_of(format);
    let n = t.len();
    let mut i: usize = 0;
    while i < n
        invariant
            n == t@.len(),
            t@ == format@,
            i <= n,
            specifiers_ok(t@, 0) == specifiers_ok(t@, i as int),
        decreases n - i,
    {
        if t[i] == '%' {
            let mut j = i + 1;
            while j < n && '0' <= t[j] && t[j] <= '9'
                invariant
                    i < j <= n,
                    n == t@.len(),
                    digits_end(t@, i + 1) == digits_end(t@, j as int),
                decreases n - j,
            {
                j = j + 1;
            }
            if j >= n {
                return false;
            }
            let c = t[j];
            if !(c == 'A' || c == 'a' || c == 'B' || c == 'b' || c == 'C' || c == 'c' || c == 'd'
                || c == 'D' || c == 'e' || c == 'f' || c == 'F' || c == 'H' || c == 'h' || c == 'I'
                || c == 'j' || c == 'k' || c == 'l' || c == 'M' || c == 'm' || c == 'n' || c == 'P'
                || c == 'p' || c == 'R' || c == 'r' || c == 'S' || c == 'T' || c == 't' || c == 'U'
                || c == 'u' || c == 'V' || c == 'v' || c == 'W' || c == 'w' || c == 'X' || c == 'x'
                || c == 'Y' || c == 'y' || c == 'Z' || c == 'z' || c == '%') {
                return false;
            }
            i = j + 1;
        } else {
            i = i + 1;
        }
    }
    true
}

/// What `format_current_time` answers, leaving out the time itself: `Ok(Some(""))` for an
/// empty format, `Err` for an unknown specifier, else `Ok(None)` (the formatted time).
pub open spec fn time_outcome(format: Seq<char>) -> Result<Option<Seq<char>>, ()> {
    if format.len() == 0 {
        Ok(Some(Seq::empty()))
    } else if !specifiers_ok(format, 0) {
        Err(())
    } else {
        Ok(None)
    }
}

/// The current local time written in `format`: empty for an empty format, an error where
/// a specifier is not known, else what chrono writes in the format for some valid local
/// date and time (which one depends on the clock). Formats whose specifiers are all known
/// but that chrono cannot write (such as `%#z`) are left out.
pub fn format_current_time(format: &str) -> (r: Result<String, TimeError>)
    requires
        format@.len() > 0 && specifiers_ok(format@, 0) ==> strftime_writes(format@),
    ensures
        match time_outcome(format@) {
            Ok(Some(s)) => r matches Ok(t) && t@ == s,
            Ok(None) => r matches Ok(t) && exists|p: DateParts| valid_parts(p) && t@ == #[trigger] time_text_of(format@, p),
            Err(()) => r matches Err(TimeError::Format(())),
        },
{
    let t = chars_of(format);
    if t.len() == 0 {
        return Ok(String::new());
    }
    if !check_specifiers(format) {
        return Err(TimeError::Format(()));
    }
    let now = local_now();
    let text = strftime_at(format, now);
    assert(valid_parts(now) && text@ == time_text_of(format@, now));
    Ok(text)
}

/// As `format_current_time`, for every format: `None` where it is not empty and its
/// specifiers are all known but chrono cannot write it (where writing the time would fail).
pub fn format_current_time_checked(format: &str) -> (r: Option<Result<String, TimeError>>)
    ensures
        r is None <==> (format@.len() > 0 && specifiers_ok(format@, 0) && !strftime_writes(format@)),
        r matches Some(res) ==> match time_outcome(format@) {
            Ok(Some(s)) => res matches Ok(t) && t@ == s,
            Ok(None) => res matches Ok(t) && exists|p: DateParts| valid_parts(p) && t@ == #[trigger] time_text_of(format@, p),
            Err(()) => res matches Err(TimeError::Format(())),
        },
{
    let t = chars_of(format);
    if t.len() > 0 && check_specifiers(format) && !strftime_valid(format) {
        None
    } else {
        Some(format_current_time(format))
    }
}

} // verus!
