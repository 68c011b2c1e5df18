//! Civil dates and times of day in the institution's time zone, and instants
//! as seconds since the Unix epoch.
//!
//! The calendar itself (which dates exist, when daylight saving time begins,
//! how a date is written) is chrono's and chrono-tz's; this module names what
//! they compute.

use crate::text::opt_text;
use chrono::Datelike;
use chrono::NaiveDate;
use chrono::NaiveTime;
use chrono::TimeDelta;
use chrono::TimeZone;
use chrono::Timelike;
use chrono_humanize::Accuracy;
use chrono_humanize::HumanTime;
use chrono_humanize::Tense;
use chrono_tz::Europe::Berlin;
use vstd::prelude::*;

verus! {

/// A calendar date. Any three numbers can stand here; whether the day exists
/// is decided where the date is placed on the time line.
#[derive(Clone, Copy, Debug, PartialEq, Eq, Structural)]
pub struct Date {
    pub year: i32,
    pub month: u32,
    pub day: u32,
}

/// A time of day, to the minute.
#[derive(Clone, Copy, Debug, PartialEq, Eq, Structural)]
pub struct Clock {
    pub hour: u32,
    pub minute: u32,
}

/// What the institution's clocks and calendars show at one instant.
#[derive(Clone, Copy, Debug, PartialEq, Eq, Structural)]
pub struct Civil {
    pub date: Date,
    /// Days since Monday: 0 for Monday up to 6 for Sunday.
    pub weekday: u32,
    pub clock: Clock,
}

/// The time of day that a text in the form `HH:MM` stands for, if it is one.
pub uninterp spec fn clock_in(text: Seq<char>) -> Option<Clock>;

/// The date that a text in the form `DD.MM.YYYY` stands for, if it is one.
pub uninterp spec fn date_in(text: Seq<char>) -> Option<Date>;

/// The instant at which the institution's clocks show `clock` on `date`, if
/// there is exactly one such instant.
pub uninterp spec fn instant_at(date: Date, clock: Clock) -> Option<int>;

/// What the institution's clocks and calendars show at `instant`, if the
/// calendar reaches that far.
pub uninterp spec fn civil_of(instant: int) -> Option<Civil>;

/// The calendar date after `date`, if `date` exists and is not the last.
pub uninterp spec fn day_after(date: Date) -> Option<Date>;

/// `date` written as `DD.MM.YYYY`, if `date` exists.
pub uninterp spec fn date_text(date: Date) -> Option<Seq<char>>;

/// How a span of `seconds` from now reads in English ("in 45 minutes"), if the
/// span can be held at all.
pub uninterp spec fn phrase_for(seconds: int) -> Option<Seq<char>>;

/// chrono's `NaiveTime::parse_from_str` with the format `%H:%M`, read back
/// through `Timelike`: the hour and minute that the text names, `None` where
/// chrono does not read it as a time. The result depends on the text alone.
#[verifier::external_body]
pub(crate) fn parse_clock(text: &str) -> (clock: Option<Clock>)
    ensures
        clock == clock_in(text@),
{
    let time = NaiveTime::parse_from_str(text, "%H:%M").ok()?;
    Some(Clock { hour: time.hour(), minute: time.minute() })
}

/// chrono's `NaiveDate::parse_from_str` with the format `%d.%m.%Y`, read back
/// through `Datelike`: the year, month and day that the text names, `None`
/// where chrono does not read it as a date. The result depends on the text
/// alone.
#[verifier::external_body]
pub(crate) fn parse_date(text: &str) -> (date: Option<Date>)
    ensures
        date == date_in(text@),
{
    let date = NaiveDate::parse_from_str(text, "%d.%m.%Y").ok()?;
    Some(Date { year: date.year(), month: date.month(), day: date.day() })
}

/// chrono-tz's `from_local_datetime` for Europe/Berlin, on the date and time
/// built by chrono's `NaiveDate::from_ymd_opt` and `and_hms_opt`: the Unix
/// time of that local time. `None` where the date or time does not exist, or
/// where the local time is skipped or repeated by a change of offset. The
/// result depends on the date and time alone.
#[verifier::external_body]
pub(crate) fn local_instant(date: Date, clock: Clock) -> (instant: Option<i64>)
    ensures
        instant_at(date, clock) == match instant {
            Some(i) => Some(i as int),
            None => None,
        },
{
    let day = NaiveDate::from_ymd_opt(date.year, date.month, date.day)?;
    let local = day.and_hms_opt(clock.hour, clock.minute, 0)?;
    Some(Berlin.from_local_datetime(&local).single()?.timestamp())
}

/// chrono's `timestamp_opt` for Europe/Berlin, read back through `Datelike`
/// and `Timelike`: the local date, the weekday as chrono's
/// `num_days_from_monday` counts it, and the time of day at a Unix time.
/// `None` where chrono cannot hold the instant. The result depends on the
/// instant alone.
#[verifier::external_body]
pub(crate) fn civil_at(instant: i64) -> (civil: Option<Civil>)
    ensures
        civil == civil_of(instant as int),
{
    let t = Berlin.timestamp_opt(instant, 0).single()?;
    Some(Civil {
        date: Date { year: t.year(), month: t.month(), day: t.day() },
        weekday: t.weekday().num_days_from_monday(),
        clock: Clock { hour: t.hour(), minute: t.minute() },
    })
}

/// chrono-humanize's `HumanTime::to_text_en`, precise and in the future tense,
/// on a span of whole seconds built by chrono's `TimeDelta::try_seconds`.
/// `None` where chrono cannot hold the span. The result depends on the number
/// of seconds alone.
#[verifier::external_body]
pub(crate) fn humanize(seconds: i64) -> (phrase: Option<String>)
    ensures
        opt_text(phrase) == phrase_for(seconds as int),
{
    let span = TimeDelta::try_seconds(seconds)?;
    Some(HumanTime::from(span).to_text_en(Accuracy::Precise, Tense::Future))
}

/// chrono's `NaiveDate::succ_opt` on the date built by `NaiveDate::from_ymd_opt`:
/// the next calendar date. `None` where the date does not exist or is the
/// calendar's last. The result depends on the date alone.
#[verifier::external_body]
pub(crate) fn next_day(date: Date) -> (next: Option<Date>)
    ensures
        next == day_after(date),
{
    let next = NaiveDate::from_ymd_opt(date.year, date.month, date.day)?.succ_opt()?;
    Some(Date { year: next.year(), month: next.month(), day: next.day() })
}

/// chrono's `NaiveDate::format` with the format `%d.%m.%Y`, on the date built
/// by `NaiveDate::from_ymd_opt`: the date as written in the timetable. `None`
/// where the date does not exist. The result depends on the date alone.
#[verifier::external_body]
pub(crate) fn write_date(date: Date) -> (text: Option<String>)
    ensures
        opt_text(text) == date_text(date),
{
    let day = NaiveDate::from_ymd_opt(date.year, date.month, date.day)?;
    Some(day.format("%d.%m.%Y").to_string())
}

/// The seconds from `from` until `to`, where they fit.
pub fn seconds_between(from: i64, to: i64) -> (seconds: Option<i64>)
    ensures
        seconds == (if i64::MIN <= to - from <= i64::MAX {
            Some((to - from) as i64)
        } else {
            None
        }),
{
    to.checked_sub(from)
}

/// The date that the institution's calendars show at `instant`.
pub open spec fn date_of(instant: int) -> Option<Date> {
    match civil_of(instant) {
        Some(c) => Some(c.date),
        None => None,
    }
}

} // verus!
