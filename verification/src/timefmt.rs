//! The export time as written into the export files.
//!
//! An instant is given as nanoseconds since the Unix epoch; the `time` crate
//! turns it into a calendar date and time and formats it.

use vstd::prelude::*;
use crate::text::{signed_zero_padded, push_char, push_zero_padded, decimal_string};
use crate::value::padded;

verus! {

/// The calendar date and time (year, month, day, hour, minute, second) that
/// `time::OffsetDateTime` gives for the instant `unix_nanos` at the offset of
/// `offset_hours` whole hours from UTC, or none when the offset or the
/// instant or its date there lies outside the range the crate supports.
pub uninterp spec fn offset_calendar(unix_nanos: int, offset_hours: int) -> Option<(int, int, int, int, int, int)>;

/// The RFC 3339 text that `time::OffsetDateTime::format` gives for the
/// instant `unix_nanos` in UTC, or none when the instant lies outside the
/// range the crate supports or the format fails.
pub uninterp spec fn rfc3339_utc(unix_nanos: int) -> Option<Seq<char>>;

/// Calls `UtcOffset::from_hms(offset_hours, 0, 0)`,
/// `OffsetDateTime::from_unix_timestamp_nanos` and `checked_to_offset`, and
/// reads the year, month, day, hour, minute and second. Claimed: the result
/// is `offset_calendar(unix_nanos, offset_hours)`; it is none for an offset
/// outside the -25 to 25 hours that `from_hms` accepts; and its month, day,
/// hour, minute and second lie in the ranges the crate documents for them.
#[verifier::external_body]
fn calendar_at_offset(unix_nanos: i128, offset_hours: i8) -> (r: Option<(i32, u8, u8, u8, u8, u8)>)
    ensures
        match r {
            Some(f) => offset_calendar(unix_nanos as int, offset_hours as int)
                == Some((f.0 as int, f.1 as int, f.2 as int, f.3 as int, f.4 as int, f.5 as int)),
            None => offset_calendar(unix_nanos as int, offset_hours as int) is None,
        },
        !(-25 <= offset_hours <= 25) ==> r is None,
        r matches Some(f) ==> 1 <= f.1 <= 12 && 1 <= f.2 <= 31 && f.3 < 24 && f.4 < 60 && f.5 < 60,
{
    let offset = time::UtcOffset::from_hms(offset_hours, 0, 0).ok()?;
    let t = time::OffsetDateTime::from_unix_timestamp_nanos(unix_nanos).ok()?.checked_to_offset(offset)?;
    Some((t.year(), u8::from(t.month()), t.day(), t.hour(), t.minute(), t.second()))
}

/// Calls `OffsetDateTime::from_unix_timestamp_nanos`, then `format` with
/// `well_known::Rfc3339`. Claimed: the text, or none where either call
/// fails, is `rfc3339_utc(unix_nanos)`.
#[verifier::external_body]
fn rfc3339_text(unix_nanos: i128) -> (r: Option<String>)
    ensures
        match r {
            Some(s) => rfc3339_utc(unix_nanos as int) == Some(s@),
            None => rfc3339_utc(unix_nanos as int) is None,
        },
{
    let t = time::OffsetDateTime::from_unix_timestamp_nanos(unix_nanos).ok()?;
    t.format(&time::format_description::well_known::Rfc3339).ok()
}

/// `YYYY-MM-DD HH:MM:SS`, each field padded with zeros.
pub open spec fn sql_time_text(year: int, month: int, day: int, hour: int, minute: int, second: int) -> Seq<char> {
    signed_zero_padded(year, 4) + seq!['-'] + padded(month as nat, 2) + seq!['-'] + padded(day as nat, 2)
        + seq![' '] + padded(hour as nat, 2) + seq![':'] + padded(minute as nat, 2) + seq![':'] + padded(second as nat, 2)
}

fn push_two_digits(out: &mut String, n: u8)
    ensures
        final(out)@ == old(out)@ + padded(n as nat, 2),
{
    let digits = decimal_string(n as u64);
    push_zero_padded(out, digits.as_str(), 2);
    proof {
        reveal(padded);
    }
}

/// The SQL-style text of a calendar date and time, as `sql_time_text` says.
pub fn format_sql_time_fields(year: i32, month: u8, day: u8, hour: u8, minute: u8, second: u8) -> (s: String)
    ensures
        s@ == sql_time_text(year as int, month as int, day as int, hour as int, minute as int, second as int),
{
    let mut s = String::new();
    if year < 0 {
        push_char(&mut s, '-');
        let magnitude: u64 = ((-(year as i64)) as u64);
        let digits = decimal_string(magnitude);
        push_zero_padded(&mut s, digits.as_str(), 3);
    } else {
        let digits = decimal_string(year as u64);
        push_zero_padded(&mut s, digits.as_str(), 4);
    }
    let ghost y = s@;
    assert(y =~= signed_zero_padded(year as int, 4));
    push_char(&mut s, '-');
    push_two_digits(&mut s, month);
    push_char(&mut s, '-');
    push_two_digits(&mut s, day);
    push_char(&mut s, ' ');
    push_two_digits(&mut s, hour);
    push_char(&mut s, ':');
    push_two_digits(&mut s, minute);
    push_char(&mut s, ':');
    push_two_digits(&mut s, second);
    assert(s@ =~= sql_time_text(year as int, month as int, day as int, hour as int, minute as int, second as int));
    s
}

/// The offset from UTC, in hours, at which SQL exports show the export
/// time.
pub const SQL_EXPORT_OFFSET_HOURS: i8 = 8;

/// The export time as written into SQL exports: the date and time of the
/// instant at `SQL_EXPORT_OFFSET_HOURS` from UTC, as `sql_time_text` says;
/// none where the instant has no date there in the supported range.
pub fn format_sql_export_time(unix_nanos: i128) -> (r: Option<String>)
    ensures
        match offset_calendar(unix_nanos as int, SQL_EXPORT_OFFSET_HOURS as int) {
            Some(f) => r matches Some(s) && s@ == sql_time_text(f.0, f.1, f.2, f.3, f.4, f.5),
            None => r is None,
        },
{
    match calendar_at_offset(unix_nanos, SQL_EXPORT_OFFSET_HOURS) {
        Some((year, month, day, hour, minute, second)) => Some(format_sql_time_fields(year, month, day, hour, minute, second)),
        None => None,
    }
}

/// The text written when no RFC 3339 text can be had: the Unix epoch.
pub open spec fn epoch_text() -> Seq<char> {
    "1970-01-01T00:00:00Z"@
}

/// The formatted time, or the Unix epoch where there is none.
pub fn export_time_or_epoch(formatted: Option<String>) -> (s: String)
    ensures
        s@ == match formatted {
            Some(t) => t@,
            None => epoch_text(),
        },
{
    match formatted {
        Some(t) => t,
        None => String::from_str("1970-01-01T00:00:00Z"),
    }
}

/// The export time as written into JSON and Markdown exports: the RFC 3339
/// text of the instant in UTC, or the Unix epoch's where it has none.
pub fn format_rfc3339_export_time(unix_nanos: i128) -> (s: String)
    ensures
        s@ == match rfc3339_utc(unix_nanos as int) {
            Some(t) => t,
            None => epoch_text(),
        },
{
    export_time_or_epoch(rfc3339_text(unix_nanos))
}

} // verus!
