//! Date handling around the task model. Reading a user-supplied date text
//! and resolving it in the machine's local time zone is chrono's work; it
//! stands behind trusted wrappers over plain values. The verified code here
//! decides which reading of the text applies and which fields go to the
//! local-time conversion.

use chrono::Datelike;
use chrono::Timelike;
use vstd::prelude::*;

verus! {

/// What chrono reads a time-of-day text as: (hour, minute, second), or
/// `None` where the text is no time of day. A function of the text alone.
pub uninterp spec fn time_of_day_of(s: Seq<char>) -> Option<(u32, u32, u32)>;

/// What chrono reads a calendar-date text as: (year, month, day), or `None`
/// where the text is no calendar date. A function of the text alone.
pub uninterp spec fn calendar_date_of(s: Seq<char>) -> Option<(i32, u32, u32)>;

/// What chrono reads a combined date-and-time text as: (year, month, day,
/// hour, minute, second), or `None` where the text is no such combination.
/// A function of the text alone.
pub uninterp spec fn date_and_time_of(s: Seq<char>) -> Option<(i32, u32, u32, u32, u32, u32)>;

/// What chrono prints for an instant: the fixed `YYYY-MM-DD HH:MM:SS UTC`
/// text, a function of the second count alone.
pub uninterp spec fn utc_display(secs: int) -> Seq<char>;

/// The second counts that chrono can turn back into a calendar moment: its
/// proleptic Gregorian calendar runs from the first day of year -262143 to
/// the last day of year 262142, which in seconds from the Unix epoch is this
/// fixed range.
pub open spec fn in_utc_display_range(secs: int) -> bool {
    -8334601228800 <= secs <= 8210266876799
}

/// Relies on `str::parse::<chrono::NaiveTime>` and chrono's `Timelike`
/// accessors: the parse depends on the text alone, and a parsed time holds
/// an hour below 24 and a minute and second below 60.
#[verifier::external_body]
fn parse_time_of_day(s: &str) -> (r: Option<(u32, u32, u32)>)
    ensures
        r == time_of_day_of(s@),
        r matches Some(t) ==> t.0 < 24 && t.1 < 60 && t.2 < 60,
{
    s.parse::<chrono::NaiveTime>().ok().map(|t| (t.hour(), t.minute(), t.second()))
}

/// Relies on `str::parse::<chrono::NaiveDate>` and chrono's `Datelike`
/// accessors: the parse depends on the text alone, and a parsed date holds a
/// month in 1..=12 and a day in 1..=31.
#[verifier::external_body]
fn parse_calendar_date(s: &str) -> (r: Option<(i32, u32, u32)>)
    ensures
        r == calendar_date_of(s@),
        r matches Some(d) ==> 1 <= d.1 <= 12 && 1 <= d.2 <= 31,
{
    s.parse::<chrono::NaiveDate>().ok().map(|d| (d.year(), d.month(), d.day()))
}

/// Relies on `str::parse::<chrono::NaiveDateTime>` and the same accessors:
/// the parse depends on the text alone, and each parsed field lies in its
/// calendar range.
#[verifier::external_body]
fn parse_date_and_time(s: &str) -> (r: Option<(i32, u32, u32, u32, u32, u32)>)
    ensures
        r == date_and_time_of(s@),
        r matches Some(d) ==> 1 <= d.1 <= 12 && 1 <= d.2 <= 31 && d.3 < 24 && d.4 < 60 && d.5 < 60,
{
    s.parse::<chrono::NaiveDateTime>().ok().map(
        |dt| (dt.year(), dt.month(), dt.day(), dt.hour(), dt.minute(), dt.second()),
    )
}

/// Relies on `chrono::Local::now`: today's date in the machine's local time
/// zone, as (year, month, day) in calendar ranges. The value depends on the
/// clock and the time zone, so nothing more is promised of it; chrono
/// panics here when the system clock reads before the Unix epoch, a state
/// no caller can rule out, so the library assumes a sane clock.
#[verifier::external_body]
fn today_local() -> (r: (i32, u32, u32))
    ensures
        1 <= r.1 <= 12 && 1 <= r.2 <= 31,
{
    let d = chrono::Local::now().date_naive();
    (d.year(), d.month(), d.day())
}

/// Relies on chrono's `NaiveDate::from_ymd_opt`, `NaiveTime::from_hms_opt`,
/// `and_local_timezone(Local).earliest` and `DateTime::timestamp`: the given
/// local wall-clock moment as seconds from the Unix epoch, or `None` when
/// the fields name no real calendar moment in the local time zone. The value
/// depends on the machine's time zone, so nothing more is promised of it;
/// chrono's zone lookup panics on unusable time-zone data, which the library
/// assumes is sound.
#[verifier::external_body]
fn local_to_utc_seconds(y: i32, mo: u32, d: u32, h: u32, mi: u32, s: u32) -> (r: Option<i64>) {
    let date = chrono::NaiveDate::from_ymd_opt(y, mo, d)?;
    let time = chrono::NaiveTime::from_hms_opt(h, mi, s)?;
    let moment = date.and_time(time).and_local_timezone(chrono::Local).earliest()?;
    Some(moment.with_timezone(&chrono::Utc).timestamp())
}

/// Relies on chrono's `DateTime::<Utc>::from_timestamp` and its `Display`:
/// the fixed `YYYY-MM-DD HH:MM:SS UTC` text for the instant, a function of
/// the second count alone. It succeeds exactly on the seconds whose day
/// falls inside chrono's calendar, the fixed range `in_utc_display_range`.
#[verifier::external_body]
pub(crate) fn display_utc(secs: i64) -> (r: Option<String>)
    ensures
        r is Some <==> in_utc_display_range(secs as int),
        r matches Some(t) ==> t@ == utc_display(secs as int),
{
    chrono::DateTime::<chrono::Utc>::from_timestamp(secs, 0).map(|dt| dt.to_string())
}

/// Which reading of a due-date text wins, and what it hands to the
/// local-time conversion: a bare time of day is completed with today's
/// date, a bare calendar date with midnight, and a combined date and time
/// is taken as written; `None` where no reading applies.
pub open spec fn due_fields_spec(
    time: Option<(u32, u32, u32)>,
    date: Option<(i32, u32, u32)>,
    date_time: Option<(i32, u32, u32, u32, u32, u32)>,
    today: (i32, u32, u32),
) -> Option<(i32, u32, u32, u32, u32, u32)> {
    match time {
        Some(t) => Some((today.0, today.1, today.2, t.0, t.1, t.2)),
        None => match date {
            Some(d) => Some((d.0, d.1, d.2, 0u32, 0u32, 0u32)),
            None => date_time,
        },
    }
}

/// The local wall-clock fields that the text names, given today's date:
/// exactly what `due_fields_spec` picks from chrono's three readings.
pub fn due_fields(s: &str, today: (i32, u32, u32)) -> (r: Option<(i32, u32, u32, u32, u32, u32)>)
    ensures
        r == due_fields_spec(time_of_day_of(s@), calendar_date_of(s@), date_and_time_of(s@), today),
{
    if let Some((h, mi, sec)) = parse_time_of_day(s) {
        return Some((today.0, today.1, today.2, h, mi, sec));
    }
    if let Some((y, mo, d)) = parse_calendar_date(s) {
        return Some((y, mo, d, 0, 0, 0));
    }
    parse_date_and_time(s)
}

/// Read a user-supplied due date: the fields `due_fields_spec` picks —
/// a bare time of day means today at that time, a bare calendar date means
/// that day's midnight, a combined date and time is taken as written — are
/// resolved in the machine's local time zone and returned as seconds from
/// the Unix epoch. `None` when the text matches no reading, and otherwise
/// only when the fields name no real moment in the local zone.
pub fn parse_date(s: &str) -> (r: Option<i64>)
    ensures
        (time_of_day_of(s@) is None && calendar_date_of(s@) is None && date_and_time_of(s@)
            is None) ==> r is None,
        r is Some ==> (time_of_day_of(s@) is Some || calendar_date_of(s@) is Some
            || date_and_time_of(s@) is Some),
{
    let today = today_local();
    match due_fields(s, today) {
        Some((y, mo, d, h, mi, sec)) => local_to_utc_seconds(y, mo, d, h, mi, sec),
        None => None,
    }
}

} // verus!
