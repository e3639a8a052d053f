//! Calendar dates in UTC, read off a count of seconds since the Unix epoch.

use crate::decimal::{padded, push_padded};
use std::time::{Duration, SystemTime, SystemTimeError};
use vstd::prelude::*;
use vstd::string::*;

verus! {

/// The system clock's time type, carried through as an opaque value.
#[verifier::external_type_specification]
#[verifier::external_body]
pub struct ExSystemTime(SystemTime);

/// The error of `SystemTime::duration_since`, carried through as an opaque value.
#[verifier::external_type_specification]
#[verifier::external_body]
pub struct ExSystemTimeError(SystemTimeError);

/// `SystemTime::now` reads the system clock. Nothing is claimed of the result.
pub assume_specification[ SystemTime::now ]() -> SystemTime
;

/// `SystemTime::duration_since` measures the time from `earlier` to `time`,
/// and fails when `earlier` is the later of the two. Nothing is claimed of
/// the result.
pub assume_specification[ SystemTime::duration_since ](
    time: &SystemTime,
    earlier: SystemTime,
) -> Result<Duration, SystemTimeError>
;

/// `Duration::as_secs` gives the whole seconds of a duration. Nothing is
/// claimed of the result.
pub assume_specification[ Duration::as_secs ](duration: &Duration) -> u64
;

/// `SystemTime::UNIX_EPOCH`, the first instant of 1970 in UTC.
#[verifier::external_body]
fn unix_epoch() -> SystemTime {
    SystemTime::UNIX_EPOCH
}

pub const SECONDS_PER_DAY: u64 = 86400;

/// Whether `year` has a 29th of February in the Gregorian calendar.
pub open spec fn is_leap_year(year: int) -> bool {
    (year % 4 == 0 && year % 100 != 0) || year % 400 == 0
}

/// The number of days of `year`.
pub open spec fn days_in_year(year: int) -> int {
    if is_leap_year(year) {
        366
    } else {
        365
    }
}

/// The number of days of the month `month` (January is 1) of `year`.
pub open spec fn days_in_month(year: int, month: int) -> int {
    if month == 2 {
        if is_leap_year(year) {
            29
        } else {
            28
        }
    } else if month == 4 || month == 6 || month == 9 || month == 11 {
        30
    } else {
        31
    }
}

/// The days from the first of January 1970 to the first of January of `year`.
pub open spec fn days_before_year(year: int) -> int
    decreases year,
{
    if year <= 1970 {
        0
    } else {
        days_before_year(year - 1) + days_in_year(year - 1)
    }
}

/// The days from the first of January of `year` to the first of `month`.
pub open spec fn days_before_month(year: int, month: int) -> int
    decreases month,
{
    if month <= 1 {
        0
    } else {
        days_before_month(year, month - 1) + days_in_month(year, month - 1)
    }
}

/// Whether the day that lies `days` days after the first of January 1970 is
/// the `day`th of `month` of `year`.
pub open spec fn is_date_of(days: int, year: int, month: int, day: int) -> bool {
    &&& year >= 1970
    &&& 1 <= month <= 12
    &&& 1 <= day <= days_in_month(year, month)
    &&& days_before_year(year) + days_before_month(year, month) + day - 1 == days
}

/// The calendar date of the day `days` days after the first of January 1970.
pub open spec fn date_of(days: int) -> (int, int, int) {
    choose|date: (int, int, int)| is_date_of(days, date.0, date.1, date.2)
}

/// The text of a date and time of day: `YYYY-MM-DDThh:mm:ss`. Each field is
/// filled with zeros on the left; a year past 9999 takes the digits it needs.
pub open spec fn date_time_text(
    year: nat,
    month: nat,
    day: nat,
    hour: nat,
    minute: nat,
    second: nat,
) -> Seq<char> {
    padded(year, 4) + seq!['-'] + padded(month, 2) + seq!['-'] + padded(day, 2) + seq!['T']
        + padded(hour, 2) + seq![':'] + padded(minute, 2) + seq![':'] + padded(second, 2)
}

/// The text of the instant `seconds` seconds after the Unix epoch, in UTC.
pub open spec fn timestamp_text(seconds: nat) -> Seq<char> {
    let date = date_of((seconds / 86400) as int);
    let rest = seconds % 86400;
    date_time_text(
        date.0 as nat,
        date.1 as nat,
        date.2 as nat,
        rest / 3600,
        rest % 3600 / 60,
        rest % 60,
    )
}

/// Later years start later, by at least 365 days a year.
pub proof fn lemma_days_before_year_grows(a: int, b: int)
    requires
        1970 <= a <= b,
    ensures
        days_before_year(a) + 365 * (b - a) <= days_before_year(b),
        days_before_year(a) >= 0,
    decreases b,
{
    if a < b {
        lemma_days_before_year_grows(a, b - 1);
    } else if a > 1970 {
        lemma_days_before_year_grows(1970, a - 1);
        lemma_days_before_year_grows(a - 1, a - 1);
    }
}

/// Later months start later, and the twelve months fill the year.
pub proof fn lemma_days_before_month_grows(year: int, a: int, b: int)
    requires
        1 <= a <= b <= 13,
    ensures
        days_before_month(year, a) + 28 * (b - a) <= days_before_month(year, b),
        days_before_month(year, a) >= 0,
        days_before_month(year, 13) == days_in_year(year),
    decreases b,
{
    reveal_with_fuel(days_before_month, 14);
    if a < b {
        lemma_days_before_month_grows(year, a, b - 1);
    }
}

/// A day has one calendar date.
pub proof fn lemma_date_unique(days: int, y1: int, m1: int, d1: int, y2: int, m2: int, d2: int)
    requires
        is_date_of(days, y1, m1, d1),
        is_date_of(days, y2, m2, d2),
    ensures
        y1 == y2,
        m1 == m2,
        d1 == d2,
{
    lemma_days_before_month_grows(y1, 1, m1);
    lemma_days_before_month_grows(y1, m1, m1 + 1);
    lemma_days_before_month_grows(y1, m1 + 1, 13);
    lemma_days_before_month_grows(y2, 1, m2);
    lemma_days_before_month_grows(y2, m2, m2 + 1);
    lemma_days_before_month_grows(y2, m2 + 1, 13);
    if y1 < y2 {
        lemma_days_before_year_grows(y1 + 1, y2);
    } else if y2 < y1 {
        lemma_days_before_year_grows(y2 + 1, y1);
    } else if m1 < m2 {
        lemma_days_before_month_grows(y1, m1 + 1, m2);
    } else if m2 < m1 {
        lemma_days_before_month_grows(y1, m2 + 1, m1);
    }
}

/// A date that fits the day is the date of the day.
pub proof fn lemma_date_of(days: int, year: int, month: int, day: int)
    requires
        is_date_of(days, year, month, day),
    ensures
        date_of(days) == (year, month, day),
{
    let witness = (year, month, day);
    assert(is_date_of(days, witness.0, witness.1, witness.2));
    let chosen = date_of(days);
    lemma_date_unique(days, year, month, day, chosen.0, chosen.1, chosen.2);
}

/// Why a time could not be formatted.
#[derive(Clone, Copy, Debug, PartialEq, Eq, Structural)]
pub enum DateError {
    /// The time lies before the Unix epoch.
    BeforeEpoch,
}

/// A point in time with its human-readable form.
#[derive(Clone, Debug, PartialEq)]
pub struct Date {
    /// Seconds elapsed since the Unix epoch.
    pub timestamp: u64,
    /// The timestamp as `YYYY-MM-DDThh:mm:ss`, in UTC.
    pub formatted: String,
}

impl Date {
    /// Whether the text is the one that belongs to the timestamp.
    pub open spec fn wf(&self) -> bool {
        self.formatted@ == timestamp_text(self.timestamp as nat)
    }

    /// The present time, read from the system clock. A clock that stands
    /// before the Unix epoch reads as the epoch itself.
    pub fn new() -> (date: Date)
        ensures
            date.wf(),
    {
        let current = SystemTime::now();
        match Self::get_seconds_elapsed_from_unix_epoch(current) {
            Some(seconds) => Self::from_timestamp(seconds),
            None => Self::from_timestamp(0),
        }
    }

    /// The date that lies `timestamp` seconds after the Unix epoch.
    pub fn from_timestamp(timestamp: u64) -> (date: Date)
        ensures
            date.timestamp == timestamp,
            date.wf(),
    {
        Date { timestamp, formatted: Self::format_seconds(timestamp) }
    }

    /// The whole seconds from the Unix epoch to `time`; `None` for a time
    /// before the epoch.
    pub fn get_seconds_elapsed_from_unix_epoch(time: SystemTime) -> (seconds: Option<u64>) {
        match time.duration_since(unix_epoch()) {
            Ok(duration) => Some(duration.as_secs()),
            Err(_) => None,
        }
    }

    /// The calendar date of the day `days_since_epoch` days after the first
    /// of January 1970, as year, month and day of the month.
    pub fn days_since_epoch_to_ymd(days_since_epoch: u64) -> (date: (u64, u32, u32))
        ensures
            is_date_of(days_since_epoch as int, date.0 as int, date.1 as int, date.2 as int),
            date_of(days_since_epoch as int) == (date.0 as int, date.1 as int, date.2 as int),
    {
        let mut year: u64 = 1970;
        let mut days: u64 = days_since_epoch;
        while days >= Self::days_in_year(year)
            invariant
                year >= 1970,
                days_before_year(year as int) + days == days_since_epoch,
                365 * (year - 1970) + days <= days_since_epoch,
            decreases days,
        {
            days -= Self::days_in_year(year);
            year += 1;
        }
        let ghost day_of_year = days;
        let mut month: u32 = 1;
        proof {
            lemma_days_before_month_grows(year as int, 1, 13);
        }
        while days >= Self::days_in_month_utc(year, month) as u64
            invariant
                1 <= month <= 12,
                days_before_month(year as int, month as int) + days == day_of_year,
                day_of_year < days_in_year(year as int),
            decreases days,
        {
            proof {
                lemma_days_before_month_grows(year as int, month as int + 1, 13);
            }
            days -= Self::days_in_month_utc(year, month) as u64;
            month += 1;
        }
        let day: u32 = days as u32 + 1;
        proof {
            lemma_date_of(days_since_epoch as int, year as int, month as int, day as int);
        }
        (year, month, day)
    }

    /// Whether `year` is a leap year.
    pub fn is_leap_year_utc(year: u64) -> (leap: bool)
        ensures
            leap == is_leap_year(year as int),
    {
        (year % 4 == 0 && year % 100 != 0) || year % 400 == 0
    }

    /// The number of days of `year`.
    pub fn days_in_year(year: u64) -> (days: u64)
        ensures
            days == days_in_year(year as int),
    {
        if Self::is_leap_year_utc(year) {
            366
        } else {
            365
        }
    }

    /// The number of days of `month` of `year`; January is 1.
    pub fn days_in_month_utc(year: u64, month: u32) -> (days: u32)
        requires
            1 <= month <= 12,
        ensures
            days == days_in_month(year as int, month as int),
    {
        if month == 2 {
            if Self::is_leap_year_utc(year) {
                29
            } else {
                28
            }
        } else if month == 4 || month == 6 || month == 9 || month == 11 {
            30
        } else {
            31
        }
    }

    /// The text of the instant `seconds` seconds after the Unix epoch.
    pub fn format_seconds(seconds: u64) -> (text: String)
        ensures
            text@ == timestamp_text(seconds as nat),
    {
        let days_since_epoch = seconds / SECONDS_PER_DAY;
        let remaining_seconds = seconds % SECONDS_PER_DAY;
        let (year, month, day) = Self::days_since_epoch_to_ymd(days_since_epoch);
        let hour = (remaining_seconds / 3600) % 24;
        let minute = (remaining_seconds % 3600) / 60;
        let second = remaining_seconds % 60;
        let mut text = String::new();
        proof {
            reveal_strlit("-");
            reveal_strlit("T");
            reveal_strlit(":");
            assert("-"@ =~= seq!['-']);
            assert("T"@ =~= seq!['T']);
            assert(":"@ =~= seq![':']);
        }
        push_padded(&mut text, year, 4);
        text.append("-");
        push_padded(&mut text, month as u64, 2);
        text.append("-");
        push_padded(&mut text, day as u64, 2);
        text.append("T");
        push_padded(&mut text, hour, 2);
        text.append(":");
        push_padded(&mut text, minute, 2);
        text.append(":");
        push_padded(&mut text, second, 2);
        assert(text@ =~= date_time_text(
            year as nat,
            month as nat,
            day as nat,
            hour as nat,
            minute as nat,
            second as nat,
        ));
        text
    }

    /// The text of `system_time` in UTC, or an error for a time before the
    /// Unix epoch.
    pub fn format_system_time_manual_simple_date(system_time: SystemTime) -> (text: Result<
        String,
        DateError,
    >)
        ensures
            exists|elapsed: Option<u64>| is_text_of_elapsed(elapsed, text),
    {
        let elapsed = Self::get_seconds_elapsed_from_unix_epoch(system_time);
        Self::format_elapsed(elapsed)
    }
}

/// What is made of the seconds that were measured from the Unix epoch to a
/// time: their text, or the error where none could be measured because the
/// time lies before the epoch.
pub open spec fn elapsed_text(elapsed: Option<u64>) -> Result<Seq<char>, DateError> {
    match elapsed {
        Some(seconds) => Ok(timestamp_text(seconds as nat)),
        None => Err(DateError::BeforeEpoch),
    }
}

/// Whether `text` is what is made of `elapsed`.
pub open spec fn is_text_of_elapsed(elapsed: Option<u64>, text: Result<String, DateError>) -> bool {
    match elapsed_text(elapsed) {
        Ok(expected) => text is Ok && text->Ok_0@ == expected,
        Err(error) => text == Err::<String, DateError>(error),
    }
}

impl Date {
    /// The text of the instant that lies `elapsed` seconds after the Unix
    /// epoch; the error where `elapsed` is `None`, which stands for a time
    /// before the epoch.
    pub fn format_elapsed(elapsed: Option<u64>) -> (text: Result<String, DateError>)
        ensures
            is_text_of_elapsed(elapsed, text),
    {
        match elapsed {
            Some(seconds) => Ok(Self::format_seconds(seconds)),
            None => Err(DateError::BeforeEpoch),
        }
    }
}

impl Default for Date {
    fn default() -> (date: Self)
        ensures
            date.wf(),
    {
        Self::new()
    }
}

} // verus!
