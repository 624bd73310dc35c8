//! Times in UTC: reading them, ordering them, and writing them for people.

use crate::text;
use chrono::{Datelike, Timelike};
use vstd::prelude::*;

verus! {

/// A point in time, with its UTC calendar date and clock.
#[derive(Clone, Copy, Debug, PartialEq, Eq)]
pub struct UtcTime {
    /// Seconds since 1970-01-01T00:00:00Z.
    pub seconds: i64,
    /// Nanoseconds within the second; a leap second counts on from 1,000,000,000.
    pub nanos: u32,
    pub year: i32,
    pub month: u32,
    pub day: u32,
    pub hour: u32,
    pub minute: u32,
}

impl UtcTime {
    /// The calendar fields are within their ranges.
    pub open spec fn well_formed(self) -> bool {
        &&& 1 <= self.month <= 12
        &&& 1 <= self.day <= 31
        &&& self.hour < 24
        &&& self.minute < 60
    }

    /// This time is not before `other`.
    pub open spec fn at_or_after(self, other: UtcTime) -> bool {
        self.seconds > other.seconds || self.seconds == other.seconds && self.nanos >= other.nanos
    }

    /// Whether this time is not before `other`.
    pub fn reached(&self, other: &UtcTime) -> (yes: bool)
        ensures
            yes == self.at_or_after(*other),
    {
        self.seconds > other.seconds || (self.seconds == other.seconds && self.nanos
            >= other.nanos)
    }
}

/// Not being before is a total order on the instants.
pub proof fn times_are_ordered(a: UtcTime, b: UtcTime, c: UtcTime)
    ensures
        a.at_or_after(b) || b.at_or_after(a),
        a.at_or_after(b) && b.at_or_after(c) ==> a.at_or_after(c),
        a.at_or_after(b) && b.at_or_after(a) ==> a.seconds == b.seconds && a.nanos == b.nanos,
{
}

/// What an RFC 3339 text says: seconds since 1970 and nanoseconds, and the UTC
/// year, month, day, hour and minute.
pub uninterp spec fn rfc3339(text: Seq<char>) -> Option<(i64, u32, i32, u32, u32, u32, u32)>;

/// `chrono::DateTime::parse_from_rfc3339`, taken to UTC. The calendar fields are in
/// the ranges that chrono documents for them.
#[verifier::external_body]
pub(crate) fn read_rfc3339(text: &str) -> (fields: Option<(i64, u32, i32, u32, u32, u32, u32)>)
    ensures
        fields == rfc3339(text@),
        match fields {
            Some((_, _, _, month, day, hour, minute)) => 1 <= month <= 12 && 1 <= day <= 31 && hour
                < 24 && minute < 60,
            None => true,
        },
{
    let time = chrono::DateTime::parse_from_rfc3339(text).ok()?.with_timezone(&chrono::Utc);
    let date = (time.year(), time.month(), time.day());
    let instant = (time.timestamp(), time.timestamp_subsec_nanos());
    Some((instant.0, instant.1, date.0, date.1, date.2, time.hour(), time.minute()))
}

/// The time that an RFC 3339 text says.
pub open spec fn time_of(text: Seq<char>) -> Option<UtcTime> {
    match rfc3339(text) {
        Some((seconds, nanos, year, month, day, hour, minute)) => Some(
            UtcTime { seconds, nanos, year, month, day, hour, minute },
        ),
        None => None,
    }
}

/// The time that an RFC 3339 text says.
pub fn parse_time(text: &str) -> (time: Option<UtcTime>)
    ensures
        time == time_of(text@),
        time is Some ==> time->0.well_formed(),
{
    match read_rfc3339(text) {
        Some((seconds, nanos, year, month, day, hour, minute)) => Some(
            UtcTime { seconds, nanos, year, month, day, hour, minute },
        ),
        None => None,
    }
}

/// The first second that a calendar date can have.
pub const FIRST_SECOND: i64 = -8_334_601_228_800;

/// The last second that a calendar date can have.
pub const LAST_SECOND: i64 = 8_210_266_876_799;

/// An instant that a calendar date can have: a leap second ends a minute.
pub open spec fn representable(seconds: int, nanos: int) -> bool {
    &&& FIRST_SECOND <= seconds <= LAST_SECOND
    &&& 0 <= nanos < 2_000_000_000
    &&& nanos >= 1_000_000_000 ==> seconds % 60 == 59
}

/// The instant that comes some milliseconds after another. An instant within a leap
/// second stays there while less than a second moves it and not past its end; one
/// that leaves it forward leaves it out of the count.
pub open spec fn moved(seconds: int, nanos: int, milliseconds: int) -> (int, int) {
    let distance = milliseconds * 1_000_000;
    if nanos >= 1_000_000_000 && -1_000_000_000 < distance < 1_000_000_000 && nanos + distance
        < 2_000_000_000 {
        (seconds, nanos + distance)
    } else {
        let leap = if nanos >= 1_000_000_000 && distance > 0 {
            1_000_000_000int
        } else {
            0
        };
        let end = seconds * 1_000_000_000 + nanos - leap + distance;
        (end / 1_000_000_000, end % 1_000_000_000)
    }
}

/// `chrono::DateTime::checked_add_signed`, on the instant that
/// `chrono::DateTime::from_timestamp` gives and the length that
/// `chrono::TimeDelta::try_milliseconds` gives: the moved instant, where both
/// instants are representable and the length is more than the least `i64`.
#[verifier::external_body]
pub(crate) fn move_time(seconds: i64, nanos: u32, milliseconds: i64) -> (end: Option<(i64, u32)>)
    ensures
        match end {
            Some((later, rest)) => {
                &&& representable(seconds as int, nanos as int)
                &&& milliseconds > i64::MIN
                &&& (later as int, rest as int) == moved(
                    seconds as int,
                    nanos as int,
                    milliseconds as int,
                )
                &&& FIRST_SECOND <= later <= LAST_SECOND
            },
            None => {
                ||| !representable(seconds as int, nanos as int)
                ||| milliseconds == i64::MIN
                ||| !(FIRST_SECOND <= moved(seconds as int, nanos as int, milliseconds as int).0
                    <= LAST_SECOND)
            },
        },
{
    let start = chrono::DateTime::from_timestamp(seconds, nanos)?;
    let end = start.checked_add_signed(chrono::TimeDelta::try_milliseconds(milliseconds)?)?;
    Some((end.timestamp(), end.timestamp_subsec_nanos()))
}

/// An instant as an RFC 3339 text in UTC, where it is representable.
pub uninterp spec fn rfc3339_text(seconds: i64, nanos: u32) -> Option<Seq<char>>;

/// `chrono::DateTime::to_rfc3339`, on the instant that
/// `chrono::DateTime::from_timestamp` gives. It is written where it is representable,
/// and from the year 0 to the year 9999 an instant outside leap seconds is read back
/// by `chrono::DateTime::parse_from_rfc3339`.
#[verifier::external_body]
pub(crate) fn write_rfc3339(seconds: i64, nanos: u32) -> (text: Option<String>)
    ensures
        text.deep_view() == rfc3339_text(seconds, nanos),
        text is Some == representable(seconds as int, nanos as int),
        match text {
            Some(text) => -62_167_219_200 <= seconds <= 253_402_300_799 && nanos < 1_000_000_000
                ==> match rfc3339(text@) {
                Some((second, rest, _, _, _, _, _)) => second == seconds && rest == nanos,
                None => false,
            },
            None => true,
        },
{
    Some(chrono::DateTime::from_timestamp(seconds, nanos)?.to_rfc3339())
}

/// The second of the UTC day.
pub open spec fn day_second(time: UtcTime) -> int {
    time.seconds as int % 86_400
}

/// The nanoseconds from one time to another, negative where the other comes first. A
/// leap second that the clock passed between the two times of day counts.
pub open spec fn nanos_between(then: UtcTime, now: UtcTime) -> int {
    let leap: int = if day_second(now) > day_second(then) && then.nanos >= 1_000_000_000 {
        1
    } else if day_second(now) < day_second(then) && now.nanos >= 1_000_000_000 {
        -1
    } else {
        0
    };
    (now.seconds - then.seconds + leap) * 1_000_000_000 + now.nanos - then.nanos
}

fn second_of_day(time: &UtcTime) -> (second: i64)
    ensures
        second == day_second(*time),
{
    match time.seconds.checked_rem_euclid(86_400) {
        Some(second) => second,
        None => 0,
    }
}

/// The nanoseconds from one time to another, negative where the other comes first.
pub fn nanos_from(then: &UtcTime, now: &UtcTime) -> (nanos: i128)
    ensures
        nanos == nanos_between(*then, *now),
{
    let before: i64 = second_of_day(then);
    let after: i64 = second_of_day(now);
    let leap: i128 = if after > before && then.nanos >= 1_000_000_000 {
        1
    } else if after < before && now.nanos >= 1_000_000_000 {
        -1
    } else {
        0
    };
    (now.seconds as i128 - then.seconds as i128 + leap) * 1_000_000_000 + now.nanos as i128
        - then.nanos as i128
}

/// The longest wait, in nanoseconds: its seconds fill a `u64`.
pub open spec fn longest_wait() -> int {
    u64::MAX * 1_000_000_000 + 999_999_999
}

/// How long to wait until an instant and some seconds more, in nanoseconds: not at all
/// once that has passed, and never longer than can be said.
pub open spec fn wait_nanos(end: UtcTime, more: u64, now: UtcTime) -> int {
    let nanos = nanos_between(now, end) + more * 1_000_000_000;
    if nanos < 0 {
        0
    } else if nanos > longest_wait() {
        longest_wait()
    } else {
        nanos
    }
}

/// How long to wait until an instant and some seconds more, in seconds and
/// nanoseconds.
pub fn wait_until(end: &UtcTime, more: u64, now: &UtcTime) -> (wait: (u64, u32))
    ensures
        wait.1 < 1_000_000_000,
        wait.0 * 1_000_000_000 + wait.1 == wait_nanos(*end, more, *now),
{
    let nanos: i128 = nanos_from(now, end) + more as i128 * 1_000_000_000;
    if nanos < 0 {
        return (0, 0);
    }
    let seconds: i128 = nanos / 1_000_000_000;
    if seconds > u64::MAX as i128 {
        return (u64::MAX, 999_999_999);
    }
    (seconds as u64, (nanos % 1_000_000_000) as u32)
}

/// An instant as an RFC 3339 text in UTC, where a calendar date can have it.
pub fn time_text(time: &UtcTime) -> (result: Option<String>)
    ensures
        result.deep_view() == rfc3339_text(time.seconds, time.nanos),
        result is Some == representable(time.seconds as int, time.nanos as int),
{
    write_rfc3339(time.seconds, time.nanos)
}

/// Outside leap seconds, the time from one instant to another is the difference of
/// the two, so it adds up over a third and is not negative exactly where the other is
/// not before.
pub proof fn elapsed_time_adds_up(a: UtcTime, b: UtcTime, c: UtcTime)
    requires
        a.nanos < 1_000_000_000,
        b.nanos < 1_000_000_000,
        c.nanos < 1_000_000_000,
    ensures
        nanos_between(a, b) + nanos_between(b, c) == nanos_between(a, c),
        (nanos_between(a, b) >= 0) == b.at_or_after(a),
{
}

/// The English name of a month.
pub open spec fn month_name(month: u32) -> Seq<char> {
    if month == 1 {
        "January"@
    } else if month == 2 {
        "February"@
    } else if month == 3 {
        "March"@
    } else if month == 4 {
        "April"@
    } else if month == 5 {
        "May"@
    } else if month == 6 {
        "June"@
    } else if month == 7 {
        "July"@
    } else if month == 8 {
        "August"@
    } else if month == 9 {
        "September"@
    } else if month == 10 {
        "October"@
    } else if month == 11 {
        "November"@
    } else {
        "December"@
    }
}

fn month_text(month: u32) -> (name: &'static str)
    ensures
        name@ == month_name(month),
{
    if month == 1 {
        "January"
    } else if month == 2 {
        "February"
    } else if month == 3 {
        "March"
    } else if month == 4 {
        "April"
    } else if month == 5 {
        "May"
    } else if month == 6 {
        "June"
    } else if month == 7 {
        "July"
    } else if month == 8 {
        "August"
    } else if month == 9 {
        "September"
    } else if month == 10 {
        "October"
    } else if month == 11 {
        "November"
    } else {
        "December"
    }
}

/// The ending of an ordinal number.
pub open spec fn ordinal_suffix(n: u32) -> Seq<char> {
    if 11 <= n % 100 <= 13 {
        "th"@
    } else if n % 10 == 1 {
        "st"@
    } else if n % 10 == 2 {
        "nd"@
    } else if n % 10 == 3 {
        "rd"@
    } else {
        "th"@
    }
}

/// The hour on a twelve-hour clock.
pub open spec fn twelve_hour(hour: u32) -> u32 {
    if hour % 12 == 0 {
        12
    } else {
        hour % 12
    }
}

/// A time as people write it.
pub open spec fn human(time: UtcTime) -> Seq<char> {
    month_name(time.month) + " "@ + text::digits(time.day as nat) + ordinal_suffix(time.day) + ", "@
        + text::signed_digits(time.year as int) + ", "@ + text::digits(twelve_hour(time.hour) as nat)
        + ":"@ + text::padded(time.minute as nat, 2) + if time.hour < 12 {
        "am"@
    } else {
        "pm"@
    } + " UTC"@
}

/// A time as people write it, such as `July 6th, 2026, 4:23am UTC`.
pub fn human_utc_datetime(time: &UtcTime) -> (result: String)
    requires
        time.well_formed(),
    ensures
        result@ == human(*time),
{
    let day: u32 = time.day;
    let suffix = if 11 <= day % 100 && day % 100 <= 13 {
        "th"
    } else if day % 10 == 1 {
        "st"
    } else if day % 10 == 2 {
        "nd"
    } else if day % 10 == 3 {
        "rd"
    } else {
        "th"
    };
    let hour: u32 = if time.hour % 12 == 0 { 12 } else { time.hour % 12 };
    let mut result = month_text(time.month).to_owned();
    result.append(" ");
    result.append(text::decimal(day as u128).as_str());
    result.append(suffix);
    result.append(", ");
    result.append(text::signed_decimal(time.year as i64).as_str());
    result.append(", ");
    result.append(text::decimal(hour as u128).as_str());
    result.append(":");
    result.append(text::padded_decimal(time.minute as u128, 2).as_str());
    result.append(if time.hour < 12 { "am" } else { "pm" });
    result.append(" UTC");
    result
}

/// The seconds between two wakeups.
pub const WAKEUP_PERIOD_SECONDS: i64 = 14_400;

/// The first four-hour boundary after `seconds`.
pub open spec fn wakeup_after(seconds: int) -> int {
    (seconds / 14_400 + 1) * 14_400
}

/// The first four-hour boundary of the UTC day after the time `now_seconds`, both
/// in seconds since 1970.
pub fn next_wakeup_marker(now_seconds: i64) -> (marker: i64)
    requires
        now_seconds <= i64::MAX - 14_400,
        now_seconds >= i64::MIN + 14_400,
    ensures
        marker == wakeup_after(now_seconds as int),
{
    let past: i64 = match now_seconds.checked_rem_euclid(WAKEUP_PERIOD_SECONDS) {
        Some(past) => past,
        None => 0,
    };
    proof {
        let n = now_seconds as int;
        assert(n == 14_400 * (n / 14_400) + n % 14_400) by (nonlinear_arith);
        assert((n / 14_400 + 1) * 14_400 == 14_400 * (n / 14_400) + 14_400) by (nonlinear_arith);
        assert(0 <= n % 14_400 < 14_400) by (nonlinear_arith);
    }
    now_seconds - past + WAKEUP_PERIOD_SECONDS
}

/// A wakeup marker is strictly in the future, at most four hours away, and on a
/// four-hour boundary; no boundary lies between.
pub proof fn wakeup_markers_are_next_boundaries(seconds: int, boundary: int)
    ensures
        seconds < wakeup_after(seconds) <= seconds + 14_400,
        wakeup_after(seconds) % 14_400 == 0,
        seconds < boundary && boundary % 14_400 == 0 ==> wakeup_after(seconds) <= boundary,
{
    assert(seconds == 14_400 * (seconds / 14_400) + seconds % 14_400) by (nonlinear_arith);
    assert(0 <= seconds % 14_400 < 14_400) by (nonlinear_arith);
    assert(((seconds / 14_400 + 1) * 14_400) % 14_400 == 0) by (nonlinear_arith);
    if seconds < boundary && boundary % 14_400 == 0 {
        assert(boundary == 14_400 * (boundary / 14_400)) by (nonlinear_arith)
            requires
                boundary % 14_400 == 0,
        ;
        assert(seconds / 14_400 < boundary / 14_400) by (nonlinear_arith)
            requires
                seconds < boundary,
                boundary == 14_400 * (boundary / 14_400),
                seconds == 14_400 * (seconds / 14_400) + seconds % 14_400,
                0 <= seconds % 14_400 < 14_400,
        ;
        assert((seconds / 14_400 + 1) * 14_400 <= 14_400 * (boundary / 14_400)) by (nonlinear_arith)
            requires
                seconds / 14_400 < boundary / 14_400,
        ;
    }
}

/// A year in at least four digits, with its sign where it needs more or is negative.
pub open spec fn year_digits(year: int) -> Seq<char> {
    if 0 <= year <= 9999 {
        text::padded(year as nat, 4)
    } else if year > 0 {
        "+"@ + text::padded(year as nat, 4)
    } else {
        "-"@ + text::padded((-year) as nat, 4)
    }
}

fn year_text(year: i32) -> (result: String)
    ensures
        result@ == year_digits(year as int),
{
    if 0 <= year && year <= 9999 {
        text::padded_decimal(year as u128, 4)
    } else if year > 0 {
        let mut result = "+".to_owned();
        result.append(text::padded_decimal(year as u128, 4).as_str());
        result
    } else {
        let mut result = "-".to_owned();
        let size: i64 = -(year as i64);
        result.append(text::padded_decimal(size as u128, 4).as_str());
        result
    }
}

/// What a wakeup session opens with.
pub open spec fn wakeup_text(marker: UtcTime) -> Seq<char> {
    "The time is "@ + text::padded(marker.hour as nat, 2) + ":"@ + text::padded(
        marker.minute as nat,
        2,
    ) + " UTC on "@ + year_digits(marker.year as int) + "-"@ + text::padded(
        marker.month as nat,
        2,
    ) + "-"@ + text::padded(marker.day as nat, 2)
        + ". Determine whether you have any messages you would like to send the user"@
}

/// What a wakeup session opens with.
pub fn wakeup_opening(marker: &UtcTime) -> (result: String)
    ensures
        result@ == wakeup_text(*marker),
{
    let mut result = "The time is ".to_owned();
    result.append(text::padded_decimal(marker.hour as u128, 2).as_str());
    result.append(":");
    result.append(text::padded_decimal(marker.minute as u128, 2).as_str());
    result.append(" UTC on ");
    result.append(year_text(marker.year).as_str());
    result.append("-");
    result.append(text::padded_decimal(marker.month as u128, 2).as_str());
    result.append("-");
    result.append(text::padded_decimal(marker.day as u128, 2).as_str());
    result.append(". Determine whether you have any messages you would like to send the user");
    result
}

/// Between two times without leap seconds lie the seconds and the nanoseconds by which
/// they differ.
pub proof fn time_between_is_the_difference(then: UtcTime, now: UtcTime)
    requires
        then.nanos < 1_000_000_000,
        now.nanos < 1_000_000_000,
    ensures
        nanos_between(then, now) == (now.seconds * 1_000_000_000 + now.nanos) - (then.seconds
            * 1_000_000_000 + then.nanos),
        nanos_between(then, now) == -nanos_between(now, then),
{
}

/// A wait lasts until its end and some seconds more, and is none where that has passed.
pub proof fn waits_last_until_their_end(end: UtcTime, more: u64, now: UtcTime)
    requires
        end.nanos < 1_000_000_000,
        now.nanos < 1_000_000_000,
    ensures
        wait_nanos(end, more, now) >= 0,
        ({
            let left = (end.seconds + more) * 1_000_000_000 + end.nanos - (now.seconds
                * 1_000_000_000 + now.nanos);
            &&& left <= 0 ==> wait_nanos(end, more, now) == 0
            &&& 0 <= left <= u64::MAX * 1_000_000_000 ==> wait_nanos(end, more, now) == left
        }),
{
    time_between_is_the_difference(now, end);
}

/// An hour reads from one to twelve, and midnight and noon as twelve.
pub proof fn hours_read_as_twelve(hour: u32)
    requires
        hour < 24,
    ensures
        1 <= twelve_hour(hour) <= 12,
        hour == 0 || hour == 12 ==> twelve_hour(hour) == 12,
        1 <= hour <= 11 ==> twelve_hour(hour) == hour,
        13 <= hour ==> twelve_hour(hour) == hour - 12,
{
}

/// A day takes its ordinal: the first, the second and the third of each ten theirs,
/// except for the eleventh to the thirteenth.
pub proof fn days_take_their_ordinal(day: u32)
    requires
        1 <= day <= 31,
    ensures
        day == 1 || day == 21 || day == 31 ==> ordinal_suffix(day) == "st"@,
        day == 2 || day == 22 ==> ordinal_suffix(day) == "nd"@,
        day == 3 || day == 23 ==> ordinal_suffix(day) == "rd"@,
        4 <= day <= 20 || 24 <= day <= 30 ==> ordinal_suffix(day) == "th"@,
{
}

/// The months have their names.
pub proof fn months_have_their_names()
    ensures
        month_name(1) == "January"@,
        month_name(2) == "February"@,
        month_name(3) == "March"@,
        month_name(4) == "April"@,
        month_name(5) == "May"@,
        month_name(6) == "June"@,
        month_name(7) == "July"@,
        month_name(8) == "August"@,
        month_name(9) == "September"@,
        month_name(10) == "October"@,
        month_name(11) == "November"@,
        month_name(12) == "December"@,
{
}

/// A time that is moved lies as far from where it was as it was moved, and moving it back
/// gives the time again.
pub proof fn times_move_by_their_distance(seconds: int, nanos: int, milliseconds: int)
    requires
        0 <= nanos < 1_000_000_000,
    ensures
        ({
            let end = moved(seconds, nanos, milliseconds);
            &&& 0 <= end.1 < 1_000_000_000
            &&& end.0 * 1_000_000_000 + end.1 == seconds * 1_000_000_000 + nanos + milliseconds
                * 1_000_000
            &&& moved(end.0, end.1, -milliseconds) == (seconds, nanos)
        }),
{
}

/// A wakeup is told of by its day and its time of day, written out in two digits each.
pub proof fn wakeups_tell_their_time(marker: UtcTime)
    ensures
        0 <= marker.year <= 9999 ==> wakeup_text(marker) == "The time is "@ + text::padded(
            marker.hour as nat,
            2,
        ) + ":"@ + text::padded(marker.minute as nat, 2) + " UTC on "@ + text::padded(
            marker.year as nat,
            4,
        ) + "-"@ + text::padded(marker.month as nat, 2) + "-"@ + text::padded(marker.day as nat, 2)
            + ". Determine whether you have any messages you would like to send the user"@,
{
}

} // verus!
