//! Readings of the clock: today's local date, the current local time as
//! text and as hour and minute, and milliseconds since the Unix epoch.
//! What these return depends on the time of the call; what is promised is
//! that a reading is the local date and time of one instant, at the offset
//! from UTC its text shows, and that it comes with that instant.
use vstd::prelude::*;

use chrono::Local;
use std::time::{Duration, SystemTime, SystemTimeError};

verus! {

#[verifier::external_type_specification]
#[verifier::external_body]
pub struct ExSystemTime(SystemTime);

#[verifier::external_type_specification]
#[verifier::external_body]
pub struct ExSystemTimeError(SystemTimeError);

pub open spec fn is_digit_char(c: char) -> bool {
    '0' <= c && c <= '9'
}

/// The two decimal digits of `n` (below 100).
pub open spec fn two_digits(n: u32) -> Seq<char> {
    seq![(('0' as u32) + n / 10) as char, (('0' as u32) + n % 10) as char]
}

/// A year as chrono's "%Y" writes it: at least four digits, with a sign
/// in front for years before 0 or after 9999.
pub open spec fn year_text(y: Seq<char>) -> bool {
    ||| (y.len() >= 4 && forall|i: int| 0 <= i < y.len() ==> is_digit_char(#[trigger] y[i]))
    ||| (y.len() >= 5 && (y[0] == '+' || y[0] == '-') && forall|i: int|
        1 <= i < y.len() ==> is_digit_char(#[trigger] y[i]))
}

/// A date as "%Y-%m-%d" writes it: the year, then the month (01 to 12)
/// and the day (01 to 31), each after a '-'.
pub open spec fn date_text(s: Seq<char>) -> bool {
    exists|y: Seq<char>, month: u32, day: u32|
        year_text(y) && 1 <= month <= 12 && 1 <= day <= 31 && s == y + seq!['-'] + two_digits(
            month,
        ) + seq!['-'] + two_digits(day)
}

/// Fractions of a second as RFC 3339 text from chrono holds them: none,
/// or '.' and 3, 6 or 9 digits.
pub open spec fn fraction_text(f: Seq<char>) -> bool {
    f.len() == 0 || ((f.len() == 4 || f.len() == 7 || f.len() == 10) && f[0] == '.' && forall|i: int|
        1 <= i < f.len() ==> is_digit_char(#[trigger] f[i]))
}

/// `ts` is the RFC 3339 text of a time on `date` at `hour`:`minute`: the
/// date, 'T', hour, minute and second (a leap second reads 60), maybe
/// fractions of a second, and the offset from UTC as sign, hours and minutes.
pub open spec fn rfc3339_at(ts: Seq<char>, date: Seq<char>, hour: u32, minute: u32) -> bool {
    exists|sec: u32, frac: Seq<char>, sign: char, off_hours: u32, off_minutes: u32|
        sec <= 60 && fraction_text(frac) && (sign == '+' || sign == '-') && off_hours <= 24
            && off_minutes < 60 && ts == date + seq!['T'] + two_digits(hour) + seq![':']
            + two_digits(minute) + seq![':'] + two_digits(sec) + frac + seq![sign] + two_digits(
            off_hours,
        ) + seq![':'] + two_digits(off_minutes)
}

/// RFC 3339 text of some local date and time.
pub open spec fn timestamp_text(ts: Seq<char>) -> bool {
    exists|date: Seq<char>, hour: u32, minute: u32|
        date_text(date) && hour < 24 && minute < 60 && rfc3339_at(ts, date, hour, minute)
}

/// Whether `y` is a leap year of the Gregorian calendar.
pub open spec fn is_leap_year(y: int) -> bool {
    y % 4 == 0 && (y % 100 != 0 || y % 400 == 0)
}

pub open spec fn days_in_year(y: int) -> int {
    if is_leap_year(y) {
        366
    } else {
        365
    }
}

/// Days from 1 January 1970 to 1 January of `y`; negative before 1970.
pub open spec fn days_before_year(y: int) -> int
    decreases (if y >= 1970 {
        y - 1970
    } else {
        1970 - y
    }),
{
    if y > 1970 {
        days_before_year(y - 1) + days_in_year(y - 1)
    } else if y < 1970 {
        days_before_year(y + 1) - days_in_year(y)
    } else {
        0
    }
}

/// The days of month `m` (1 to 12) of year `y`.
pub open spec fn days_in_month(y: int, m: int) -> int {
    if m == 2 {
        if is_leap_year(y) {
            29
        } else {
            28
        }
    } else if m == 4 || m == 6 || m == 9 || m == 11 {
        30
    } else {
        31
    }
}

/// Days from 1 January of `y` to the first of month `m`.
pub open spec fn days_before_month(y: int, m: int) -> int
    decreases m,
{
    if m <= 1 {
        0
    } else {
        days_before_month(y, m - 1) + days_in_month(y, m - 1)
    }
}

/// Days from 1 January 1970 to `y`-`m`-`d` in the Gregorian calendar
/// (counted back for earlier dates).
pub open spec fn day_number(y: int, m: int, d: int) -> int {
    days_before_year(y) + days_before_month(y, m) + d - 1
}

/// An offset from UTC of `off` seconds as RFC 3339 text from chrono holds
/// it: the sign, then hours and minutes with the seconds rounded to the
/// nearest minute.
pub open spec fn offset_text(off: int) -> Seq<char> {
    let a = if off < 0 {
        -off
    } else {
        off
    };
    let p = (a + 30) / 60;
    seq![if off < 0 { '-' } else { '+' }] + two_digits((p / 60) as u32) + seq![':'] + two_digits(
        (p % 60) as u32,
    )
}

/// One reading of the local clock.
pub struct LocalTime {
    /// The local date, "YYYY-MM-DD".
    pub date: String,
    /// The local date and time as RFC 3339 text.
    pub timestamp: String,
    pub hour: u32,
    pub minute: u32,
}

/// `t` reads the instant `secs` seconds after the Unix epoch at `off`
/// seconds from UTC (less than a day either way): its date `y`-`m`-`d`
/// (the year written `yt`) is the day of that local instant, its hour,
/// minute and second `sec` are the local time of day, and its RFC 3339
/// text is that date and time with the fraction `frac` and the offset.
pub open spec fn local_parts(
    t: LocalTime,
    secs: int,
    off: int,
    y: int,
    m: int,
    d: int,
    yt: Seq<char>,
    sec: u32,
    frac: Seq<char>,
) -> bool {
    let local = secs + off;
    &&& -86400 < off < 86400
    &&& sec < 60
    &&& t.hour * 3600 + t.minute * 60 + sec == local % 86400
    &&& 1 <= m <= 12
    &&& 1 <= d <= days_in_month(y, m)
    &&& day_number(y, m, d) == local / 86400
    &&& year_text(yt)
    &&& (0 <= y <= 9999 ==> yt == two_digits((y / 100) as u32) + two_digits((y % 100) as u32))
    &&& t.date@ == yt + seq!['-'] + two_digits(m as u32) + seq!['-'] + two_digits(d as u32)
    &&& fraction_text(frac)
    &&& t.timestamp@ == t.date@ + seq!['T'] + two_digits(t.hour) + seq![':'] + two_digits(t.minute)
        + seq![':'] + two_digits(sec) + frac + offset_text(off)
}

/// `t` is the local reading of the instant `secs` seconds after the Unix
/// epoch, at the offset from UTC that its text shows.
pub open spec fn reading_of_instant(t: LocalTime, secs: int) -> bool {
    exists|off: int, y: int, m: int, d: int, yt: Seq<char>, sec: u32, frac: Seq<char>|
        #[trigger] local_parts(t, secs, off, y, m, d, yt, sec, frac)
}

/// `t` is the local reading of the instant `now`, counted in milliseconds
/// since the Unix epoch (zero for an instant before it): of the whole
/// second `now / 1000`, or of some second before the epoch where `now` is
/// zero.
pub open spec fn clock_read(t: LocalTime, now: u128) -> bool {
    exists|secs: int|
        #[trigger] reading_of_instant(t, secs) && if secs >= 0 {
            secs == now / 1000
        } else {
            now == 0
        }
}

/// The local date and time at `secs` seconds and `nanos` nanoseconds after
/// the Unix epoch (`secs` may be negative), given as plain values:
/// `DateTime::from_timestamp`, then `with_timezone(&Local)`, and of that the
/// date formatted with "%Y-%m-%d", `to_rfc3339`, `Timelike::hour` and
/// `Timelike::minute`. `from_timestamp` gives `None`, and so does this,
/// where the time is outside chrono's range or `nanos` is not a valid
/// nanosecond. Otherwise chrono documents the hour as 0 to 23 and the
/// minute as 0 to 59, and writes the date and the date part of the RFC 3339
/// text alike, from the same local date and time as the hour and minute,
/// so the RFC 3339 text starts with the date and then that hour and
/// minute. For a whole-second count `secs` and fewer than a billion nanoseconds,
/// chrono takes the UTC instant `secs` seconds after the epoch, adds the
/// machine's offset (a `FixedOffset`, under a day either way), and reads the
/// date, the time of day and the RFC 3339 text, whose offset it writes
/// rounded to the minute, from that local instant: `reading_of_instant`.
/// The offset comes from the machine, so the reading is not named. Left
/// unsaid: chrono's time-zone lookup stops the program where
/// the machine's time-zone data gives no offset for the time, a state of
/// the machine that no `requires` can leave out.
#[verifier::external_body]
fn local_time_at(secs: i64, nanos: u32) -> (r: Option<LocalTime>)
    ensures
        r matches Some(t) ==> t.hour < 24 && t.minute < 60 && date_text(t.date@) && rfc3339_at(
            t.timestamp@,
            t.date@,
            t.hour,
            t.minute,
        ),
        r matches Some(t) ==> (nanos < 1_000_000_000 ==> reading_of_instant(t, secs as int)),
{
    chrono::DateTime::from_timestamp(secs, nanos).map(|utc| {
        let local = utc.with_timezone(&Local);
        LocalTime {
            date: local.format("%Y-%m-%d").to_string(),
            timestamp: local.to_rfc3339(),
            hour: chrono::Timelike::hour(&local),
            minute: chrono::Timelike::minute(&local),
        }
    })
}

/// `SystemTime::now`: whatever the system clock reads.
#[verifier::external_body]
fn system_now() -> SystemTime {
    SystemTime::now()
}

/// `SystemTime::duration_since` the Unix epoch: an error where the clock
/// reads earlier than the epoch. Nothing is stated of the duration.
#[verifier::external_body]
fn since_unix_epoch(t: &SystemTime) -> Result<Duration, SystemTimeError> {
    t.duration_since(std::time::UNIX_EPOCH)
}

/// `SystemTimeError::duration`: how far the clock reading lies before the
/// Unix epoch. Nothing is stated of the duration.
#[verifier::external_body]
fn before_epoch(e: &SystemTimeError) -> Duration {
    e.duration()
}

/// `Duration::as_secs`: the whole seconds of the duration. Nothing is
/// stated of the number: `Duration` has no view here to tie it to.
#[verifier::external_body]
fn whole_seconds(d: &Duration) -> u64 {
    d.as_secs()
}

/// `Duration::subsec_nanos`: the nanoseconds beyond the whole seconds,
/// which std documents as always less than one billion.
#[verifier::external_body]
fn subsecond_nanos(d: &Duration) -> (n: u32)
    ensures
        n < 1_000_000_000,
{
    d.subsec_nanos()
}

/// `Duration::as_millis`: the whole milliseconds of the duration. Nothing is
/// stated of the number: `Duration` has no view here to tie it to.
#[verifier::external_body]
fn whole_millis(d: &Duration) -> u128 {
    d.as_millis()
}

/// A reading of the local clock is well formed: hour and minute in range,
/// the date as "%Y-%m-%d" writes it, and the RFC 3339 text of that date,
/// hour and minute.
pub open spec fn local_time_ok(t: LocalTime) -> bool {
    &&& t.hour < 24
    &&& t.minute < 60
    &&& date_text(t.date@)
    &&& rfc3339_at(t.timestamp@, t.date@, t.hour, t.minute)
}

/// The local reading of the instant `secs` seconds and `nanos` nanoseconds
/// after the Unix epoch; `None` where chrono cannot hold the time.
fn reading_at(secs: i64, nanos: u32) -> (r: Option<LocalTime>)
    requires
        nanos < 1_000_000_000,
    ensures
        r matches Some(t) ==> local_time_ok(t) && reading_of_instant(t, secs as int),
{
    local_time_at(secs, nanos)
}

/// The local date and time now, with the same instant in milliseconds since
/// the Unix epoch (zero before it); `None` where the system clock reads a
/// time that chrono cannot hold.
pub(crate) fn local_clock() -> (r: Option<(LocalTime, u128)>)
    ensures
        r matches Some(p) ==> local_time_ok(p.0) && clock_read(p.0, p.1),
{
    match since_unix_epoch(&system_now()) {
        Ok(d) => {
            // the whole milliseconds are the instant the reading is handed
            // out with; the reading is of their whole second
            let now = whole_millis(&d);
            let secs = now / 1000;
            if secs > i64::MAX as u128 {
                None
            } else {
                match reading_at(secs as i64, subsecond_nanos(&d)) {
                    Some(t) => Some((t, now)),
                    None => None,
                }
            }
        },
        Err(e) => {
            // a time before the epoch: whole seconds rounded down, and the
            // nanoseconds counted forward from there
            let d = before_epoch(&e);
            let secs = whole_seconds(&d);
            let nanos = subsecond_nanos(&d);
            let reading = if secs > i64::MAX as u64 - 1 {
                None
            } else if nanos == 0 {
                reading_at(-(secs as i64), 0)
            } else {
                reading_at(-(secs as i64) - 1, 1_000_000_000 - nanos)
            };
            match reading {
                Some(t) => Some((t, 0)),
                None => None,
            }
        },
    }
}

/// Today's local date, as "YYYY-MM-DD"; `None` where the clock cannot be read.
pub(crate) fn today_string() -> (r: Option<String>)
    ensures
        r matches Some(d) ==> date_text(d@),
{
    match local_clock() {
        Some((t, _)) => Some(t.date),
        None => None,
    }
}

/// The current local date and time, as RFC 3339 text; `None` where the
/// clock cannot be read.
pub(crate) fn now_string() -> (r: Option<String>)
    ensures
        r matches Some(ts) ==> timestamp_text(ts@),
{
    match local_clock() {
        Some((t, _)) => {
            assert(date_text(t.date@) && t.hour < 24 && t.minute < 60 && rfc3339_at(
                t.timestamp@,
                t.date@,
                t.hour,
                t.minute,
            ));
            Some(t.timestamp)
        },
        None => None,
    }
}

/// Milliseconds since the Unix epoch; zero where the clock reads earlier.
pub fn now_ms() -> u128 {
    match since_unix_epoch(&system_now()) {
        Ok(d) => whole_millis(&d),
        Err(_) => 0,
    }
}

} // verus!
