//! Dates and times of the local time zone.

use vstd::prelude::*;
use vstd::string::*;

use crate::numerals;

use chrono::TimeZone;

verus! {

/// A date and time of the Gregorian calendar.
pub struct CivilTime {
    pub year: int,
    pub month: int,
    pub day: int,
    pub hour: int,
    pub minute: int,
    pub second: int,
}

pub open spec fn is_leap_year(year: int) -> bool {
    year % 4 == 0 && (year % 100 != 0 || year % 400 == 0)
}

pub open spec fn days_in_month(year: int, month: int) -> int {
    if month == 2 {
        if is_leap_year(year) {
            29
        } else {
            28
        }
    } else if month == 4 || month == 6 || month == 9 || month == 11 {
        30
    } else {
        31
    }
}

/// The days of a year before a month.
pub open spec fn days_before_month(year: int, month: int) -> int
    decreases month,
{
    if month <= 1 {
        0
    } else {
        days_before_month(year, month - 1) + days_in_month(year, month - 1)
    }
}

/// The days from the beginning of 1970 to that of a year.
pub open spec fn days_before_year(year: int) -> int {
    365 * (year - 1970) + (year - 1) / 4 - (year - 1) / 100 + (year - 1) / 400 - 477
}

impl CivilTime {
    /// Whether the calendar has this date and the day this time.
    pub open spec fn exists_in_calendar(self) -> bool {
        &&& 1 <= self.month <= 12
        &&& 1 <= self.day <= days_in_month(self.year, self.month)
        &&& 0 <= self.hour < 24
        &&& 0 <= self.minute < 60
        &&& 0 <= self.second < 60
    }

    /// The milliseconds from the beginning of 1970 on a clock that shows this date and time.
    pub open spec fn clock_ms(self) -> int {
        let days = days_before_year(self.year) + days_before_month(self.year, self.month) + self.day
            - 1;
        (((days * 24 + self.hour) * 60 + self.minute) * 60 + self.second) * 1000
    }

    /// Whether a local clock can show this at a timestamp in milliseconds: every time zone is
    /// less than a day away from UTC.
    pub open spec fn shown_at(self, timestamp_ms: int) -> bool {
        timestamp_ms - 86_400_000 < self.clock_ms() < timestamp_ms + 86_400_000
    }

    /// The date and time in the form `31.12.2025, 23:59:00`.
    pub open spec fn text(self) -> Seq<char> {
        two_digits(self.day) + "."@ + two_digits(self.month) + "."@ + two_digits(self.year / 100)
            + two_digits(self.year % 100) + ", "@ + two_digits(self.hour) + ":"@ + two_digits(
            self.minute,
        ) + ":"@ + two_digits(self.second)
    }
}

/// A number below 100 in two digits.
pub open spec fn two_digits(n: int) -> Seq<char> {
    seq![numerals::digit_char((n / 10) as nat), numerals::digit_char((n % 10) as nat)]
}

/// The last timestamp, in milliseconds, at which it is surely not later than the year 9999.
pub const LAST_FOUR_DIGIT_MS: u64 = 253_402_214_400_000;

pub open spec fn text_shown_at(c: CivilTime, when: Seq<char>, timestamp_ms: int) -> bool {
    c.exists_in_calendar() && c.shown_at(timestamp_ms) && when == c.text()
}

/// Whether a text says when a timestamp was. Nothing is said of timestamps after the year 9999.
pub open spec fn says_when(when: Seq<char>, timestamp_ms: u64) -> bool {
    timestamp_ms <= LAST_FOUR_DIGIT_MS ==> exists|c: CivilTime| #[trigger]
        text_shown_at(c, when, timestamp_ms as int)
}

/// `chrono::Local::timestamp_millis_opt` and `DateTime::format`: the local date and time of a
/// timestamp in milliseconds, in the form `%d.%m.%Y, %H:%M:%S`. How far the local clock is from
/// UTC depends on the time zone of the machine: less than a day, and nothing more is said. Of
/// timestamps after the year 9999, where years take more than four digits or the present
/// stands in, nothing is said at all.
#[verifier::external_body]
pub(crate) fn format_human_datetime(timestamp_ms: u64) -> (r: String)
    ensures
        says_when(r@, timestamp_ms),
{
    chrono::Local.timestamp_millis_opt(timestamp_ms as i64).single().unwrap_or_else(
        chrono::Local::now,
    ).format("%d.%m.%Y, %H:%M:%S").to_string()
}

/// The date and time of six numbers.
pub open spec fn civil_time(y: i32, mo: u32, d: u32, h: u32, mi: u32, s: u32) -> CivilTime {
    CivilTime {
        year: y as int,
        month: mo as int,
        day: d as int,
        hour: h as int,
        minute: mi as int,
        second: s as int,
    }
}

/// `chrono::Local::with_ymd_and_hms` and `DateTime::timestamp_millis`: the timestamp in
/// milliseconds at which the local clock shows a date and time, where the calendar has it and
/// the clock shows it once. How far the local clock is from UTC depends on the time zone of the
/// machine: less than a day, and nothing more is said; nor is it said which dates and times the
/// local clock leaves out or shows twice.
#[verifier::external_body]
pub(crate) fn local_datetime_ms(y: i32, mo: u32, d: u32, h: u32, mi: u32, s: u32) -> (r: Option<i64>)
    ensures
        r matches Some(t) ==> civil_time(y, mo, d, h, mi, s).exists_in_calendar() && civil_time(
            y,
            mo,
            d,
            h,
            mi,
            s,
        ).shown_at(t as int) && t % 1000 == 0,
{
    chrono::Local.with_ymd_and_hms(y, mo, d, h, mi, s).single().map(|t| t.timestamp_millis())
}

/// Whether the local clock, asked for the timestamp of a date and time, gave this: a timestamp
/// in milliseconds, or none where it leaves the date and time out or shows it twice. What it
/// gives depends on the time zone of the machine.
pub closed spec fn local_clock_gives(
    y: i32,
    mo: u32,
    d: u32,
    h: u32,
    mi: u32,
    s: u32,
    ms: Option<i64>,
) -> bool {
    call_ensures(local_datetime_ms, (y, mo, d, h, mi, s), ms)
}

/// Asks the local clock for the timestamp of a date and time.
pub(crate) fn ask_local_clock(y: i32, mo: u32, d: u32, h: u32, mi: u32, s: u32) -> (r: Option<i64>)
    ensures
        local_clock_gives(y, mo, d, h, mi, s, r),
{
    local_datetime_ms(y, mo, d, h, mi, s)
}

/// A timestamp that the local clock gives is one of a date and time that the calendar has, at
/// whole seconds and less than a day away.
pub proof fn the_clock_gives_real_times(y: i32, mo: u32, d: u32, h: u32, mi: u32, s: u32, ms: i64)
    requires
        local_clock_gives(y, mo, d, h, mi, s, Some(ms)),
    ensures
        civil_time(y, mo, d, h, mi, s).exists_in_calendar(),
        civil_time(y, mo, d, h, mi, s).shown_at(ms as int),
        ms % 1000 == 0,
{
}

/// A day has 86,400,000 milliseconds on the clock, the days of a month follow one another, and
/// so do hours, minutes and seconds.
pub proof fn clocks_run_on(c: CivilTime)
    ensures
        (CivilTime { day: c.day + 1, ..c }).clock_ms() == c.clock_ms() + 86_400_000,
        (CivilTime { hour: c.hour + 1, ..c }).clock_ms() == c.clock_ms() + 3_600_000,
        (CivilTime { minute: c.minute + 1, ..c }).clock_ms() == c.clock_ms() + 60_000,
        (CivilTime { second: c.second + 1, ..c }).clock_ms() == c.clock_ms() + 1_000,
{
}

/// After the last day of a month comes the first day of the next, and after the last day of a
/// year the first day of the next year; the count begins with 1970.
pub proof fn days_follow_one_another(c: CivilTime)
    requires
        1 <= c.month <= 12,
        c.day == 1,
    ensures
        c.month < 12 ==> (CivilTime { month: c.month + 1, ..c }).clock_ms() == c.clock_ms()
            + 86_400_000 * days_in_month(c.year, c.month),
        c.month == 12 ==> (CivilTime { year: c.year + 1, month: 1, ..c }).clock_ms() == c.clock_ms()
            + 86_400_000 * 31,
        c.year == 1970 && c.month == 1 && c.hour == 0 && c.minute == 0 && c.second == 0
            ==> c.clock_ms() == 0,
        days_in_month(c.year, c.month) == (if c.month == 2 {
            if c.year % 4 == 0 && c.year % 100 != 0 || c.year % 400 == 0 {
                29int
            } else {
                28
            }
        } else if c.month == 4 || c.month == 6 || c.month == 9 || c.month == 11 {
            30
        } else {
            31
        }),
{
    reveal_with_fuel(days_before_month, 13);
    let y = c.year;
    assert(days_before_year(y + 1) - days_before_year(y) == 365 + (if is_leap_year(y) {
        1int
    } else {
        0
    })) by {
        assert(y / 4 - (y - 1) / 4 == (if y % 4 == 0 {
            1int
        } else {
            0
        }));
        assert(y / 100 - (y - 1) / 100 == (if y % 100 == 0 {
            1int
        } else {
            0
        }));
        assert(y / 400 - (y - 1) / 400 == (if y % 400 == 0 {
            1int
        } else {
            0
        }));
        assert(y % 100 == 0 ==> y % 4 == 0);
        assert(y % 400 == 0 ==> y % 100 == 0);
    }
}

} // verus!
