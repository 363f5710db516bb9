//! Date parsing for query arguments, and the two points where the library
//! consults chrono: the current time, and the mapping from a civil local
//! time to an epoch timestamp.
//!
//! A query date is accepted in one of three shapes, tried in this order:
//! `YYYY-MM-DD HH:MM:SS`, `YYYY-MM-DD`, `DD/MM/YYYY`.  The date-only shapes
//! mean midnight.  The shapes are disjoint, the fields fixed-width decimal,
//! and the calendar fields must name a real date.

use vstd::prelude::*;

use chrono::TimeZone;

verus! {

/// A decimal digit character.
pub open spec fn is_digit(c: char) -> bool {
    48 <= c as int <= 57
}

/// The value of a decimal digit character.
pub open spec fn digit_of(c: char) -> int {
    c as int - 48
}

/// The value of the two-digit field at position `p`.
pub open spec fn two_digit_val(s: Seq<char>, p: int) -> int {
    digit_of(s[p]) * 10 + digit_of(s[p + 1])
}

/// The value of the four-digit field at position `p`.
pub open spec fn four_digit_val(s: Seq<char>, p: int) -> int {
    digit_of(s[p]) * 1000 + digit_of(s[p + 1]) * 100 + digit_of(s[p + 2]) * 10 + digit_of(s[p + 3])
}

/// The `YYYY-MM-DD HH:MM:SS` shape.
pub open spec fn is_datetime_shape(s: Seq<char>) -> bool {
    &&& s.len() == 19
    &&& is_digit(s[0]) && is_digit(s[1]) && is_digit(s[2]) && is_digit(s[3])
    &&& s[4] == '-'
    &&& is_digit(s[5]) && is_digit(s[6])
    &&& s[7] == '-'
    &&& is_digit(s[8]) && is_digit(s[9])
    &&& s[10] == ' '
    &&& is_digit(s[11]) && is_digit(s[12])
    &&& s[13] == ':'
    &&& is_digit(s[14]) && is_digit(s[15])
    &&& s[16] == ':'
    &&& is_digit(s[17]) && is_digit(s[18])
}

/// The `YYYY-MM-DD` shape.
pub open spec fn is_ymd_shape(s: Seq<char>) -> bool {
    &&& s.len() == 10
    &&& is_digit(s[0]) && is_digit(s[1]) && is_digit(s[2]) && is_digit(s[3])
    &&& s[4] == '-'
    &&& is_digit(s[5]) && is_digit(s[6])
    &&& s[7] == '-'
    &&& is_digit(s[8]) && is_digit(s[9])
}

/// The `DD/MM/YYYY` shape.
pub open spec fn is_dmy_shape(s: Seq<char>) -> bool {
    &&& s.len() == 10
    &&& is_digit(s[0]) && is_digit(s[1])
    &&& s[2] == '/'
    &&& is_digit(s[3]) && is_digit(s[4])
    &&& s[5] == '/'
    &&& is_digit(s[6]) && is_digit(s[7]) && is_digit(s[8]) && is_digit(s[9])
}

/// A civil wall-clock date and time, to the second, with no time zone
/// attached.
#[derive(Clone, Copy, Debug, PartialEq, Eq, Structural)]
pub struct CivilDateTime {
    pub year: u16,
    pub month: u8,
    pub day: u8,
    pub hour: u8,
    pub minute: u8,
    pub second: u8,
}

/// A leap year of the proleptic Gregorian calendar.
pub open spec fn is_leap_year(y: int) -> bool {
    y % 4 == 0 && (y % 100 != 0 || y % 400 == 0)
}

/// Days in month `m` of year `y` (meaningful for `1 <= m <= 12`).
pub open spec fn days_in_month(y: int, m: int) -> int {
    if m == 2 {
        if is_leap_year(y) {
            29
        } else {
            28
        }
    } else if m == 4 || m == 6 || m == 9 || m == 11 {
        30
    } else {
        31
    }
}

impl CivilDateTime {
    /// The fields name a real date and time of day.
    pub open spec fn valid(&self) -> bool {
        &&& 1 <= self.month <= 12
        &&& 1 <= self.day <= days_in_month(self.year as int, self.month as int)
        &&& self.hour <= 23
        &&& self.minute <= 59
        &&& self.second <= 59
    }
}

/// Helper for building the parse result in specifications.
pub open spec fn mk_civil(y: int, mo: int, d: int, h: int, mi: int, se: int) -> CivilDateTime {
    CivilDateTime {
        year: y as u16,
        month: mo as u8,
        day: d as u8,
        hour: h as u8,
        minute: mi as u8,
        second: se as u8,
    }
}

/// What parsing a date argument yields: the civil fields when the text
/// matches one of the three shapes and names a real date, and nothing
/// otherwise.
pub open spec fn spec_parse_civil(s: Seq<char>) -> Option<CivilDateTime> {
    if is_datetime_shape(s) {
        let c = mk_civil(
            four_digit_val(s, 0),
            two_digit_val(s, 5),
            two_digit_val(s, 8),
            two_digit_val(s, 11),
            two_digit_val(s, 14),
            two_digit_val(s, 17),
        );
        if c.valid() {
            Some(c)
        } else {
            None
        }
    } else if is_ymd_shape(s) {
        let c = mk_civil(four_digit_val(s, 0), two_digit_val(s, 5), two_digit_val(s, 8), 0, 0, 0);
        if c.valid() {
            Some(c)
        } else {
            None
        }
    } else if is_dmy_shape(s) {
        let c = mk_civil(four_digit_val(s, 6), two_digit_val(s, 3), two_digit_val(s, 0), 0, 0, 0);
        if c.valid() {
            Some(c)
        } else {
            None
        }
    } else {
        None
    }
}

/// The value of a digit character, or `None` for any other character.
fn digit_value(c: char) -> (r: Option<u8>)
    ensures
        r is Some <==> is_digit(c),
        r matches Some(d) ==> d < 10 && d as int == digit_of(c),
{
    match c {
        '0' => Some(0),
        '1' => Some(1),
        '2' => Some(2),
        '3' => Some(3),
        '4' => Some(4),
        '5' => Some(5),
        '6' => Some(6),
        '7' => Some(7),
        '8' => Some(8),
        '9' => Some(9),
        _ => None,
    }
}

/// Reads the two-digit field at position `p`.
fn two_digits(s: &str, p: usize) -> (r: Option<u8>)
    requires
        p + 2 <= s@.len(),
        s@.len() <= usize::MAX,
    ensures
        r is Some <==> is_digit(s@[p as int]) && is_digit(s@[p as int + 1]),
        r matches Some(v) ==> v as int == two_digit_val(s@, p as int) && v <= 99,
{
    let d0 = digit_value(s.get_char(p));
    let d1 = digit_value(s.get_char(p + 1));
    match (d0, d1) {
        (Some(a), Some(b)) => Some(a * 10 + b),
        _ => None,
    }
}

/// Reads the four-digit field at position `p`.
fn four_digits(s: &str, p: usize) -> (r: Option<u16>)
    requires
        p + 4 <= s@.len(),
        s@.len() <= usize::MAX,
    ensures
        r is Some <==> is_digit(s@[p as int]) && is_digit(s@[p as int + 1]) && is_digit(
            s@[p as int + 2],
        ) && is_digit(s@[p as int + 3]),
        r matches Some(v) ==> v as int == four_digit_val(s@, p as int) && v <= 9999,
{
    let d0 = digit_value(s.get_char(p));
    let d1 = digit_value(s.get_char(p + 1));
    let d2 = digit_value(s.get_char(p + 2));
    let d3 = digit_value(s.get_char(p + 3));
    match (d0, d1, d2, d3) {
        (Some(a), Some(b), Some(c), Some(d)) => Some(
            (a as u16) * 1000 + (b as u16) * 100 + (c as u16) * 10 + (d as u16),
        ),
        _ => None,
    }
}

/// Days in month `m` of year `y`.
fn days_in_month_of(y: u16, m: u8) -> (r: u8)
    requires
        1 <= m <= 12,
    ensures
        r as int == days_in_month(y as int, m as int),
{
    if m == 2 {
        if y % 4 == 0 && (y % 100 != 0 || y % 400 == 0) {
            29
        } else {
            28
        }
    } else if m == 4 || m == 6 || m == 9 || m == 11 {
        30
    } else {
        31
    }
}

/// Checks the calendar fields.
fn check_valid(c: &CivilDateTime) -> (r: bool)
    ensures
        r == c.valid(),
{
    if c.month < 1 || c.month > 12 {
        return false;
    }
    let dim = days_in_month_of(c.year, c.month);
    c.day >= 1 && c.day <= dim && c.hour <= 23 && c.minute <= 59 && c.second <= 59
}

/// Parses a date argument into its civil fields.  Returns `Some` exactly
/// when the text matches one of the three accepted shapes and names a real
/// date.
pub fn parse_civil(s: &str) -> (r: Option<CivilDateTime>)
    ensures
        r == spec_parse_civil(s@),
{
    let n = s.unicode_len();
    if n == 19 {
        if !(s.get_char(4) == '-' && s.get_char(7) == '-' && s.get_char(10) == ' ' && s.get_char(
            13,
        ) == ':' && s.get_char(16) == ':') {
            return None;
        }
        match (
            four_digits(s, 0),
            two_digits(s, 5),
            two_digits(s, 8),
            two_digits(s, 11),
            two_digits(s, 14),
            two_digits(s, 17),
        ) {
            (Some(y), Some(mo), Some(d), Some(h), Some(mi), Some(se)) => {
                let c = CivilDateTime {
                    year: y,
                    month: mo,
                    day: d,
                    hour: h,
                    minute: mi,
                    second: se,
                };
                if check_valid(&c) {
                    Some(c)
                } else {
                    None
                }
            },
            _ => None,
        }
    } else if n == 10 {
        if s.get_char(4) == '-' && s.get_char(7) == '-' {
            match (four_digits(s, 0), two_digits(s, 5), two_digits(s, 8)) {
                (Some(y), Some(mo), Some(d)) => {
                    let c = CivilDateTime {
                        year: y,
                        month: mo,
                        day: d,
                        hour: 0,
                        minute: 0,
                        second: 0,
                    };
                    if check_valid(&c) {
                        Some(c)
                    } else {
                        None
                    }
                },
                _ => None,
            }
        } else if s.get_char(2) == '/' && s.get_char(5) == '/' {
            match (two_digits(s, 0), two_digits(s, 3), four_digits(s, 6)) {
                (Some(d), Some(mo), Some(y)) => {
                    let c = CivilDateTime {
                        year: y,
                        month: mo,
                        day: d,
                        hour: 0,
                        minute: 0,
                        second: 0,
                    };
                    if check_valid(&c) {
                        Some(c)
                    } else {
                        None
                    }
                },
                _ => None,
            }
        } else {
            None
        }
    } else {
        None
    }
}

/// Why a date argument was rejected.
#[derive(Clone, Copy, Debug, PartialEq, Eq, Structural)]
pub enum DateError {
    /// The text matches none of the accepted shapes, or names no real date.
    BadFormat,
    /// The shape and date are fine, but the local time zone has no such
    /// instant (e.g. the time falls in a daylight-saving gap).
    Unrepresentable,
}

/// Relies on chrono (`NaiveDate::from_ymd_opt`, `NaiveDate::and_hms_opt`,
/// `TimeZone::from_local_datetime` on `Local`, `MappedLocalTime::earliest`,
/// `DateTime::timestamp`): maps a civil wall-clock time, read in the
/// machine's local time zone, to seconds since the epoch.  Returns `None`
/// when the zone skips the given time or the mapping fails; of an ambiguous
/// time it takes the earlier instant.  The result depends on the machine's
/// time zone, so nothing is stated of its value.
#[verifier::external_body]
fn local_epoch_of(c: &CivilDateTime) -> (r: Option<i64>) {
    let date = chrono::NaiveDate::from_ymd_opt(c.year as i32, c.month as u32, c.day as u32)?;
    let ndt = date.and_hms_opt(c.hour as u32, c.minute as u32, c.second as u32)?;
    Some(chrono::Local.from_local_datetime(&ndt).earliest()?.timestamp())
}

/// Parses a date argument and maps it to an epoch timestamp in the local
/// time zone.  `BadFormat` comes exactly on text that
/// [`spec_parse_civil`] rejects; `Unrepresentable` only on a well-formed
/// date that the local time zone cannot represent.
pub fn parse_datetime(s: &str) -> (r: Result<i64, DateError>)
    ensures
        r == Err::<i64, DateError>(DateError::BadFormat) <==> spec_parse_civil(s@) is None,
        r matches Ok(t) ==> spec_parse_civil(s@) is Some,
{
    match parse_civil(s) {
        None => Err(DateError::BadFormat),
        Some(c) => match local_epoch_of(&c) {
            None => Err(DateError::Unrepresentable),
            Some(t) => Ok(t),
        },
    }
}

/// Relies on chrono's `Utc::now` and `DateTime::timestamp`: the current
/// time as seconds since the epoch.  `Utc::now` itself panics on a system
/// clock set before the epoch, so a returned value is never negative.
#[verifier::external_body]
pub fn now_epoch() -> (r: i64)
    ensures
        r >= 0,
{
    chrono::Utc::now().timestamp()
}

} // verus!
