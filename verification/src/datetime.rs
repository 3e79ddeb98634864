//! Clock and calendar values: they are stored as text, in the formats given
//! here.

use crate::value::{SqlValue, SqlValueView};
use vstd::prelude::*;

verus! {

/// The text that the `time` crate writes for a time of day under a format
/// description; none where the description is not one, where the parts are
/// no time of day, or where formatting fails.
pub uninterp spec fn time_text(
    description: Seq<char>,
    hour: u8,
    minute: u8,
    second: u8,
    nanosecond: u32,
) -> Option<Seq<char>>;

/// The text that the `time` crate writes for a calendar date under a format
/// description; none where the description is not one, where the parts are
/// no date, or where formatting fails.
pub uninterp spec fn date_text(description: Seq<char>, year: i32, month: u8, day: u8) -> Option<
    Seq<char>,
>;

/// The text that the `time` crate writes under a format description for the
/// moment so many nanoseconds after the Unix epoch, seen at an offset of so
/// many seconds from UTC; none where the description is not one, where
/// moment or offset are out of range, or where formatting fails.
pub uninterp spec fn moment_text(description: Seq<char>, nanoseconds: i128, offset: i32) -> Option<
    Seq<char>,
>;

/// Formats a time of day: the description is read by
/// `time::format_description::parse_owned`, the time is made by
/// `time::Time::from_hms_nano` and written by `time::Time::format`. The
/// result is a function of the arguments alone; nothing else is claimed of
/// it.
#[verifier::external_body]
fn format_time(description: &str, hour: u8, minute: u8, second: u8, nanosecond: u32) -> (r: Option<
    String,
>)
    ensures
        r.deep_view() == time_text(description@, hour, minute, second, nanosecond),
{
    let format = time::format_description::parse_owned::<2>(description).ok()?;
    let value = time::Time::from_hms_nano(hour, minute, second, nanosecond).ok()?;
    value.format(&format).ok()
}

/// Formats a calendar date: the description is read by
/// `time::format_description::parse_owned`, the date is made by
/// `time::Date::from_calendar_date` and written by `time::Date::format`.
/// The result is a function of the arguments alone; nothing else is claimed
/// of it.
#[verifier::external_body]
fn format_date(description: &str, year: i32, month: u8, day: u8) -> (r: Option<String>)
    ensures
        r.deep_view() == date_text(description@, year, month, day),
{
    let format = time::format_description::parse_owned::<2>(description).ok()?;
    let month = time::Month::try_from(month).ok()?;
    let value = time::Date::from_calendar_date(year, month, day).ok()?;
    value.format(&format).ok()
}

/// Formats a moment: the description is read by
/// `time::format_description::parse_owned`, the moment is made by
/// `time::OffsetDateTime::from_unix_timestamp_nanos`, moved to its offset
/// by `checked_to_offset` and written by `time::OffsetDateTime::format`.
/// The result is a function of the arguments alone; nothing else is claimed
/// of it.
#[verifier::external_body]
fn format_moment(description: &str, nanoseconds: i128, offset: i32) -> (r: Option<String>)
    ensures
        r.deep_view() == moment_text(description@, nanoseconds, offset),
{
    let format = time::format_description::parse_owned::<2>(description).ok()?;
    let offset = time::UtcOffset::from_whole_seconds(offset).ok()?;
    let utc = time::OffsetDateTime::from_unix_timestamp_nanos(nanoseconds).ok()?;
    utc.checked_to_offset(offset)?.format(&format).ok()
}

/// How a time of day is stored: hour and minute, then the second, then its
/// fraction.
pub open spec fn time_format() -> Seq<char> {
    "[hour]:[minute][optional [:[second][optional [.[subsecond]]]]]"@
}

/// How a calendar date is stored: year, month and day.
pub open spec fn date_format() -> Seq<char> {
    "[year]-[month]-[day]"@
}

/// How a moment is stored: date, time with its fraction, and the offset from
/// UTC with its sign.
pub open spec fn moment_format() -> Seq<char> {
    "[year]-[month]-[day] [hour]:[minute]:[second].[subsecond][offset_hour sign:mandatory]:[offset_minute]"@
}

/// The value that stores formatted text: the text, where there is one.
pub open spec fn stored_text(formatted: Option<Seq<char>>) -> Option<SqlValueView> {
    match formatted {
        Some(text) => Some(SqlValueView::Text(text)),
        None => None,
    }
}

/// The value that stores formatted text.
pub fn text_of(formatted: Option<String>) -> (r: Option<SqlValue>)
    ensures
        r.deep_view() == stored_text(formatted.deep_view()),
{
    match formatted {
        Some(text) => Some(SqlValue::Text(text)),
        None => None,
    }
}

/// The value that stores a time of day; none where the parts are no time of
/// day.
pub fn time_value(hour: u8, minute: u8, second: u8, nanosecond: u32) -> (r: Option<SqlValue>)
    ensures
        r.deep_view() == stored_text(time_text(time_format(), hour, minute, second, nanosecond)),
{
    text_of(
        format_time(
            "[hour]:[minute][optional [:[second][optional [.[subsecond]]]]]",
            hour,
            minute,
            second,
            nanosecond,
        ),
    )
}

/// The value that stores a calendar date; none where the parts are no date.
pub fn date_value(year: i32, month: u8, day: u8) -> (r: Option<SqlValue>)
    ensures
        r.deep_view() == stored_text(date_text(date_format(), year, month, day)),
{
    text_of(format_date("[year]-[month]-[day]", year, month, day))
}

/// The value that stores a moment, given as nanoseconds after the Unix
/// epoch and seen at an offset of so many seconds from UTC; none where
/// either is out of range.
pub fn moment_value(nanoseconds: i128, offset: i32) -> (r: Option<SqlValue>)
    ensures
        r.deep_view() == stored_text(moment_text(moment_format(), nanoseconds, offset)),
{
    text_of(
        format_moment(
            "[year]-[month]-[day] [hour]:[minute]:[second].[subsecond][offset_hour sign:mandatory]:[offset_minute]",
            nanoseconds,
            offset,
        ),
    )
}

} // verus!
