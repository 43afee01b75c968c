//! The record page's fixed date-time format, and its conversion to epoch
//! seconds in the machine's local time.
//!
//! The text "YYYY-MM-DD HH:MM" is parsed by the library itself, with an
//! exact contract; only the calendar check and the local-time offset come
//! from the outside, behind a trusted wrapper, and a verified function
//! decides what every possible wrapper answer yields.

use vstd::prelude::*;

use crate::errors::ScanError;

use chrono::TimeZone;

verus! {

/// The five fields read from a "YYYY-MM-DD HH:MM" text.
#[derive(Debug, Copy, Clone, PartialEq, Eq, Structural)]
pub struct DateTimeParts {
    pub year: u32,
    pub month: u32,
    pub day: u32,
    pub hour: u32,
    pub minute: u32,
}

/// An ASCII decimal digit.
pub open spec fn is_digit(c: char) -> bool {
    '0' <= c && c <= '9'
}

/// The value of one digit.
pub open spec fn digit_val(c: char) -> int {
    c as int - '0' as int
}

/// Whether the text has the shape "YYYY-MM-DD HH:MM": sixteen characters,
/// digits and separators in their fixed places.
pub open spec fn spec_date_time_shape(s: Seq<char>) -> bool {
    &&& s.len() == 16
    &&& is_digit(s[0]) && is_digit(s[1]) && is_digit(s[2]) && is_digit(s[3])
    &&& s[4] == '-'
    &&& is_digit(s[5]) && is_digit(s[6])
    &&& s[7] == '-'
    &&& is_digit(s[8]) && is_digit(s[9])
    &&& s[10] == ' '
    &&& is_digit(s[11]) && is_digit(s[12])
    &&& s[13] == ':'
    &&& is_digit(s[14]) && is_digit(s[15])
}

/// The fields a well-shaped text carries.
pub open spec fn spec_date_time_fields(s: Seq<char>) -> DateTimeParts {
    DateTimeParts {
        year: (digit_val(s[0]) * 1000 + digit_val(s[1]) * 100 + digit_val(s[2]) * 10 + digit_val(
            s[3],
        )) as u32,
        month: (digit_val(s[5]) * 10 + digit_val(s[6])) as u32,
        day: (digit_val(s[8]) * 10 + digit_val(s[9])) as u32,
        hour: (digit_val(s[11]) * 10 + digit_val(s[12])) as u32,
        minute: (digit_val(s[14]) * 10 + digit_val(s[15])) as u32,
    }
}

/// The fields are within their plain ranges; whether the day exists in
/// its month is left to the calendar.
pub open spec fn spec_fields_in_range(p: DateTimeParts) -> bool {
    &&& 1 <= p.month <= 12
    &&& 1 <= p.day <= 31
    &&& p.hour <= 23
    &&& p.minute <= 59
}

/// What parsing the record page's date-time text answers.
pub open spec fn spec_parse_date_time(s: Seq<char>) -> Option<DateTimeParts> {
    if spec_date_time_shape(s) && spec_fields_in_range(spec_date_time_fields(s)) {
        Some(spec_date_time_fields(s))
    } else {
        None
    }
}

/// Reads one character as a digit.
fn read_digit(s: &str, i: usize) -> (r: Option<u32>)
    requires
        i < s@.len(),
    ensures
        (match r {
            Some(v) => is_digit(s@[i as int]) && v == digit_val(s@[i as int]),
            None => !is_digit(s@[i as int]),
        }),
{
    let c = s.get_char(i);
    if '0' <= c && c <= '9' {
        Some(c as u32 - '0' as u32)
    } else {
        None
    }
}

/// Parses a "YYYY-MM-DD HH:MM" text into its five fields.
pub fn parse_date_time(s: &str) -> (r: Result<DateTimeParts, ScanError>)
    ensures
        (match r {
            Ok(p) => spec_parse_date_time(s@) == Some(p),
            Err(e) => e == ScanError::FieldParseFailure && spec_parse_date_time(s@) is None,
        }),
{
    if s.unicode_len() != 16 {
        return Err(ScanError::FieldParseFailure);
    }
    if !(s.get_char(4) == '-' && s.get_char(7) == '-' && s.get_char(10) == ' ' && s.get_char(13)
        == ':') {
        return Err(ScanError::FieldParseFailure);
    }
    let d0 = read_digit(s, 0);
    let d1 = read_digit(s, 1);
    let d2 = read_digit(s, 2);
    let d3 = read_digit(s, 3);
    let m0 = read_digit(s, 5);
    let m1 = read_digit(s, 6);
    let a0 = read_digit(s, 8);
    let a1 = read_digit(s, 9);
    let h0 = read_digit(s, 11);
    let h1 = read_digit(s, 12);
    let n0 = read_digit(s, 14);
    let n1 = read_digit(s, 15);
    match (d0, d1, d2, d3, m0, m1, a0, a1, h0, h1, n0, n1) {
        (
            Some(d0),
            Some(d1),
            Some(d2),
            Some(d3),
            Some(m0),
            Some(m1),
            Some(a0),
            Some(a1),
            Some(h0),
            Some(h1),
            Some(n0),
            Some(n1),
        ) => {
            let p = DateTimeParts {
                year: d0 * 1000 + d1 * 100 + d2 * 10 + d3,
                month: m0 * 10 + m1,
                day: a0 * 10 + a1,
                hour: h0 * 10 + h1,
                minute: n0 * 10 + n1,
            };
            if 1 <= p.month && p.month <= 12 && 1 <= p.day && p.day <= 31 && p.hour <= 23
                && p.minute <= 59 {
                Ok(p)
            } else {
                Err(ScanError::FieldParseFailure)
            }
        },
        _ => Err(ScanError::FieldParseFailure),
    }
}

/// Relies on chrono: `NaiveDate::from_ymd_opt` and `and_hms_opt` reject a
/// date that the calendar does not have, and `Local.from_local_datetime`
/// resolves the fields in the machine's local time zone — an answer that
/// depends on that time zone, so nothing more is assumed of it.
#[verifier::external_body]
fn local_epoch_of_parts(p: &DateTimeParts) -> Option<i64> {
    let date = chrono::NaiveDate::from_ymd_opt(p.year as i32, p.month, p.day)?;
    let time = date.and_hms_opt(p.hour, p.minute, 0)?;
    match chrono::Local.from_local_datetime(&time).single() {
        Some(dt) => Some(dt.timestamp()),
        None => None,
    }
}

/// Decides what any calendar answer yields: a non-negative epoch second
/// is the timestamp; a missing or pre-epoch answer is a field failure.
pub fn timestamp_from_epoch(epoch: Option<i64>) -> (r: Result<u64, ScanError>)
    ensures
        r == (match epoch {
            Some(t) => if t >= 0 {
                Ok::<u64, ScanError>(t as u64)
            } else {
                Err::<u64, ScanError>(ScanError::FieldParseFailure)
            },
            None => Err::<u64, ScanError>(ScanError::FieldParseFailure),
        }),
{
    match epoch {
        Some(t) => if t >= 0 {
            Ok(t as u64)
        } else {
            Err(ScanError::FieldParseFailure)
        },
        None => Err(ScanError::FieldParseFailure),
    }
}

/// Parses the record page's date-time text and resolves it in local time.
///
/// A text that does not have the fixed shape is rejected as a field
/// failure; a well-shaped text succeeds exactly when the calendar accepts
/// it in the machine's local time zone and lies at or after the epoch.
pub fn parse_local_timestamp(s: &str) -> (r: Result<u64, ScanError>)
    ensures
        r is Ok ==> spec_parse_date_time(s@) is Some,
        spec_parse_date_time(s@) is None ==> r == Err::<u64, ScanError>(
            ScanError::FieldParseFailure,
        ),
        r is Err ==> r == Err::<u64, ScanError>(ScanError::FieldParseFailure),
{
    match parse_date_time(s) {
        Ok(p) => timestamp_from_epoch(local_epoch_of_parts(&p)),
        Err(e) => Err(e),
    }
}

/// Relies on chrono: renders an epoch second in the machine's local time
/// zone with the record page's "YYYY-MM-DD HH:MM" shape; nothing holds of
/// the text, which depends on that time zone.
#[verifier::external_body]
pub(crate) fn format_local_minute(timestamp: u64) -> Option<String> {
    let ts: i64 = timestamp.try_into().ok()?;
    let dt = chrono::Local.timestamp_opt(ts, 0).single()?;
    Some(dt.format("%Y-%m-%d %H:%M").to_string())
}

} // verus!
