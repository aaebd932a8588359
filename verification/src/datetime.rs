//! Dates and times of raids. Raids are announced in the local time of
//! Warsaw and kept as microseconds since the Unix epoch.

use crate::text::{split_two_words, two_words};
use vstd::prelude::*;
use vstd::string::*;

verus! {

/// What `chrono::NaiveTime::parse_from_str` with the format `%H:%M` makes
/// of a text: the seconds since midnight of the time that it spells, or
/// nothing where chrono refuses the text.
pub uninterp spec fn clock_parsed(text: Seq<char>) -> Option<u32>;

/// What `chrono::NaiveDate::parse_from_str` with the format `%Y-%m-%d`
/// makes of a text: the day that it spells, counted from the first day of
/// the common era, or nothing where chrono refuses the text.
pub uninterp spec fn day_parsed(text: Seq<char>) -> Option<i32>;

/// The instant, in microseconds since the Unix epoch, at which the clocks
/// of Warsaw show the given day and time of day, as
/// `chrono::TimeZone::from_local_datetime` of `chrono_tz::Europe::Warsaw`
/// and `single` have it: nothing where the clocks never show that time, or
/// show it twice, or chrono cannot hold the day or the time.
pub uninterp spec fn warsaw_instant(day: i32, secs: u32) -> Option<i64>;

/// The day of the week in Warsaw at an instant, counted from Monday as
/// zero, as `chrono::Datelike::weekday` has it; nothing where chrono cannot
/// hold the instant.
pub uninterp spec fn warsaw_weekday(at: i64) -> Option<u32>;

/// Calls `chrono::NaiveTime::parse_from_str` with the format `%H:%M`.
#[verifier::external_body]
fn parse_clock(text: &str) -> (secs: Option<u32>)
    ensures
        secs == clock_parsed(text@),
{
    match chrono::NaiveTime::parse_from_str(text, "%H:%M") {
        Ok(time) => Some(chrono::Timelike::num_seconds_from_midnight(&time)),
        Err(_) => None,
    }
}

/// Calls `chrono::NaiveDate::parse_from_str` with the format `%Y-%m-%d`.
#[verifier::external_body]
fn parse_day(text: &str) -> (day: Option<i32>)
    ensures
        day == day_parsed(text@),
{
    match chrono::NaiveDate::parse_from_str(text, "%Y-%m-%d") {
        Ok(date) => Some(chrono::Datelike::num_days_from_ce(&date)),
        Err(_) => None,
    }
}

/// Calls `chrono::TimeZone::from_local_datetime` for Warsaw on the day and
/// time of day, and takes the instant where it is single.
#[verifier::external_body]
fn local_to_instant(day: i32, secs: u32) -> (at: Option<i64>)
    ensures
        at == warsaw_instant(day, secs),
{
    let date = chrono::NaiveDate::from_num_days_from_ce_opt(day)?;
    let time = chrono::NaiveTime::from_num_seconds_from_midnight_opt(secs, 0)?;
    let naive = chrono::NaiveDateTime::new(date, time);
    let local = chrono::TimeZone::from_local_datetime(&chrono_tz::Europe::Warsaw, &naive);
    let single = local.single()?;
    Some(single.with_timezone(&chrono::Utc).timestamp_micros())
}

/// Calls `chrono::Datelike::weekday` on the instant as seen in Warsaw, and
/// counts the day from Monday.
#[verifier::external_body]
fn weekday_in_warsaw(at: i64) -> (day: Option<u32>)
    ensures
        day == warsaw_weekday(at),
{
    let utc = chrono::DateTime::from_timestamp_micros(at)?;
    let local = utc.with_timezone(&chrono_tz::Europe::Warsaw);
    Some(chrono::Datelike::weekday(&local).num_days_from_monday())
}

/// The time of day and the day that a text of the form `HH:MM YYYY-MM-DD`
/// names, as texts.
pub fn split_when(s: &str) -> (parts: Option<(String, String)>)
    ensures
        match parts {
            Some((clock, day)) => two_words(s@) == Some((clock@, day@)),
            None => two_words(s@) is None,
        },
{
    split_two_words(s)
}

/// The instant that a text of the form `HH:MM YYYY-MM-DD` names in the
/// local time of Warsaw.
pub open spec fn raid_datetime_of(s: Seq<char>) -> Option<i64> {
    match two_words(s) {
        Some((clock, day)) => match (clock_parsed(clock), day_parsed(day)) {
            (Some(secs), Some(days)) => warsaw_instant(days, secs),
            _ => None,
        },
        None => None,
    }
}

/// Reads `HH:MM YYYY-MM-DD` as a local time of Warsaw.
pub fn parse_raid_datetime(s: &str) -> (at: Option<i64>)
    ensures
        at == raid_datetime_of(s@),
{
    match split_when(s) {
        Some((clock, day)) => {
            let secs = parse_clock(clock.as_str());
            let days = parse_day(day.as_str());
            match (secs, days) {
                (Some(secs), Some(days)) => local_to_instant(days, secs),
                _ => None,
            }
        },
        None => None,
    }
}

/// The name of a day of the week, counted from Monday as zero.
pub open spec fn weekday_name_of(day: u32) -> Option<Seq<char>> {
    if day == 0 {
        Some("monday"@)
    } else if day == 1 {
        Some("tuesday"@)
    } else if day == 2 {
        Some("wednesday"@)
    } else if day == 3 {
        Some("thursday"@)
    } else if day == 4 {
        Some("friday"@)
    } else if day == 5 {
        Some("saturday"@)
    } else if day == 6 {
        Some("sunday"@)
    } else {
        None
    }
}

/// The name of a day of the week, counted from Monday as zero.
pub fn weekday_name(day: u32) -> (name: Option<&'static str>)
    ensures
        match name {
            Some(n) => weekday_name_of(day) == Some(n@),
            None => weekday_name_of(day) is None,
        },
{
    if day == 0 {
        Some("monday")
    } else if day == 1 {
        Some("tuesday")
    } else if day == 2 {
        Some("wednesday")
    } else if day == 3 {
        Some("thursday")
    } else if day == 4 {
        Some("friday")
    } else if day == 5 {
        Some("saturday")
    } else if day == 6 {
        Some("sunday")
    } else {
        None
    }
}

/// The name of the day of the week in Warsaw at an instant, by which the
/// category of a raid's channel is found.
pub fn weekday_key(at: i64) -> (name: Option<&'static str>)
    ensures
        match name {
            Some(n) => warsaw_weekday(at) matches Some(day) && weekday_name_of(day) == Some(n@),
            None => match warsaw_weekday(at) {
                Some(day) => weekday_name_of(day) is None,
                None => true,
            },
        },
{
    match weekday_in_warsaw(at) {
        Some(day) => weekday_name(day),
        None => None,
    }
}

/// The patterns in which the library writes local times.
pub open spec fn known_pattern(pattern: Seq<char>) -> bool {
    ||| pattern == "%Y-%m-%d %H:%M %Z"@
    ||| pattern == "%Y-%m-%d %H:%M"@
    ||| pattern == "%d-%m"@
    ||| pattern == "%H_%M"@
}

/// The text that `chrono::DateTime::format` gives for an instant as seen in
/// Warsaw, in the given pattern; nothing where chrono cannot hold the
/// instant.
pub uninterp spec fn warsaw_text(at: i64, pattern: Seq<char>) -> Option<Seq<char>>;

/// Calls `chrono::DateTime::format` on the instant as seen in Warsaw. The
/// pattern is one that chrono accepts: with another, writing the text would
/// panic.
#[verifier::external_body]
fn format_in_warsaw(at: i64, pattern: &str) -> (text: Option<String>)
    requires
        known_pattern(pattern@),
    ensures
        match text {
            Some(t) => warsaw_text(at, pattern@) == Some(t@),
            None => warsaw_text(at, pattern@) is None,
        },
{
    let utc = chrono::DateTime::from_timestamp_micros(at)?;
    Some(utc.with_timezone(&chrono_tz::Europe::Warsaw).format(pattern).to_string())
}

/// Date, time and zone in Warsaw, as shown in summaries and messages.
pub fn local_stamp(at: i64) -> (text: Option<String>)
    ensures
        match text {
            Some(t) => warsaw_text(at, "%Y-%m-%d %H:%M %Z"@) == Some(t@),
            None => warsaw_text(at, "%Y-%m-%d %H:%M %Z"@) is None,
        },
{
    format_in_warsaw(at, "%Y-%m-%d %H:%M %Z")
}

/// Date and time in Warsaw, as shown in the list of a guild's raids.
pub fn local_short(at: i64) -> (text: Option<String>)
    ensures
        match text {
            Some(t) => warsaw_text(at, "%Y-%m-%d %H:%M"@) == Some(t@),
            None => warsaw_text(at, "%Y-%m-%d %H:%M"@) is None,
        },
{
    format_in_warsaw(at, "%Y-%m-%d %H:%M")
}

/// Day and month in Warsaw, as used in the name of a raid's channel.
pub fn local_day_month(at: i64) -> (text: Option<String>)
    ensures
        match text {
            Some(t) => warsaw_text(at, "%d-%m"@) == Some(t@),
            None => warsaw_text(at, "%d-%m"@) is None,
        },
{
    format_in_warsaw(at, "%d-%m")
}

/// Hour and minute in Warsaw, as used in the name of a raid's channel.
pub fn local_hour_minute(at: i64) -> (text: Option<String>)
    ensures
        match text {
            Some(t) => warsaw_text(at, "%H_%M"@) == Some(t@),
            None => warsaw_text(at, "%H_%M"@) is None,
        },
{
    format_in_warsaw(at, "%H_%M")
}

} // verus!
