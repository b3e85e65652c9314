//! Instants and their rendering in a time zone, for the systemd, Task Scheduler and launchd
//! calendars. The conversions to civil time are jiff's.
use vstd::prelude::*;

verus! {

broadcast use vstd::string::group_string_axioms;

/// The smallest second of an instant (jiff's `Timestamp::MIN`).
pub const MIN_UNIX_SECOND: i64 = -377705023201i64;

/// The largest second of an instant (jiff's `Timestamp::MAX`).
pub const MAX_UNIX_SECOND: i64 = 253402207200i64;

/// The largest magnitude of a UTC offset, in seconds (`25:59:59`).
pub const MAX_OFFSET_SECONDS: i32 = 93599i32;

/// Nanoseconds per second.
pub const NANOS_PER_SECOND: i32 = 1_000_000_000i32;

/// Whether `second` and `nanosecond` name an instant in jiff's supported range, in the
/// normalized form that jiff keeps (the two parts never have opposite signs).
pub open spec fn instant_parts_valid(second: i64, nanosecond: i32) -> bool {
    &&& MIN_UNIX_SECOND <= second <= MAX_UNIX_SECOND
    &&& -NANOS_PER_SECOND < nanosecond < NANOS_PER_SECOND
    &&& second > 0 ==> nanosecond >= 0
    &&& second < 0 ==> nanosecond <= 0
    &&& second == MIN_UNIX_SECOND ==> nanosecond >= 0
}

/// The instant `second` seconds and `nanosecond` nanoseconds after the Unix epoch, in
/// nanoseconds.
pub open spec fn total_nanos(second: int, nanosecond: int) -> int {
    second * 1_000_000_000 + nanosecond
}

/// Whether an offset (in seconds east of UTC) lies in jiff's supported range.
pub open spec fn offset_valid(offset_seconds: i32) -> bool {
    -MAX_OFFSET_SECONDS <= offset_seconds <= MAX_OFFSET_SECONDS
}

/// An instant in time, as whole seconds and nanoseconds since the Unix epoch.
#[derive(Debug)]
pub struct Instant {
    second: i64,
    nanosecond: i32,
}

impl View for Instant {
    type V = (i64, i32);

    closed spec fn view(&self) -> (i64, i32) {
        (self.second, self.nanosecond)
    }
}

impl Instant {
    #[verifier::type_invariant]
    closed spec fn inv(self) -> bool {
        instant_parts_valid(self.second, self.nanosecond)
    }

    /// The instant `second` seconds plus `nanosecond` nanoseconds after the Unix epoch
    /// (either part may be negative), or `None` outside the supported range. As jiff's
    /// `Timestamp::new` does, it accepts `nanosecond` in `-999_999_999..=999_999_999` and
    /// `second` in range, except for a negative `nanosecond` at the smallest second.
    pub fn new(second: i64, nanosecond: i32) -> (res: Option<Instant>)
        ensures
            res is Some <==> (MIN_UNIX_SECOND <= second <= MAX_UNIX_SECOND && -NANOS_PER_SECOND
                < nanosecond < NANOS_PER_SECOND && !(second == MIN_UNIX_SECOND && nanosecond
                < 0)),
            res matches Some(i) ==> total_nanos(i@.0 as int, i@.1 as int) == total_nanos(
                second as int,
                nanosecond as int,
            ) && instant_parts_valid(i@.0, i@.1),
    {
        if second < MIN_UNIX_SECOND || second > MAX_UNIX_SECOND || nanosecond <= -NANOS_PER_SECOND
            || nanosecond >= NANOS_PER_SECOND || (second == MIN_UNIX_SECOND && nanosecond < 0) {
            return None;
        }
        if second < 0 && nanosecond > 0 {
            Some(Instant { second: second + 1, nanosecond: nanosecond - NANOS_PER_SECOND })
        } else if second > 0 && nanosecond < 0 {
            Some(Instant { second: second - 1, nanosecond: nanosecond + NANOS_PER_SECOND })
        } else {
            Some(Instant { second, nanosecond })
        }
    }

    /// Whole seconds since the Unix epoch (rounded toward zero).
    pub fn second(&self) -> (res: i64)
        ensures
            res == self@.0,
            instant_parts_valid(self@.0, self@.1),
    {
        proof {
            use_type_invariant(self);
        }
        self.second
    }

    /// The sub-second part, in nanoseconds, with the sign of the instant.
    pub fn nanosecond(&self) -> (res: i32)
        ensures
            res == self@.1,
            instant_parts_valid(self@.0, self@.1),
    {
        proof {
            use_type_invariant(self);
        }
        self.nanosecond
    }
}

/// What jiff's `strftime` renders, with the given format, for the instant
/// `(second, nanosecond)` seen at the fixed UTC offset `offset_seconds`.
pub uninterp spec fn jiff_strftime_at_offset(
    second: i64,
    nanosecond: i32,
    offset_seconds: i32,
    format: Seq<char>,
) -> Seq<char>;

/// jiff's `Zoned::strftime` on the instant seen at a fixed offset
/// (`Timestamp::to_zoned(TimeZone::fixed(offset)).strftime(format).to_string()`). jiff formats
/// leniently and never fails; the contract names the result and states nothing more of it.
#[verifier::external_body]
fn strftime_at_offset(second: i64, nanosecond: i32, offset_seconds: i32, format: &str) -> (res:
    String)
    requires
        instant_parts_valid(second, nanosecond),
        offset_valid(offset_seconds),
    ensures
        res@ == jiff_strftime_at_offset(second, nanosecond, offset_seconds, format@),
{
    match (jiff::Timestamp::new(second, nanosecond), jiff::tz::Offset::from_seconds(offset_seconds)) {
        (Ok(timestamp), Ok(offset)) => timestamp.to_zoned(jiff::tz::TimeZone::fixed(offset)).strftime(
            format,
        ).to_string(),
        _ => String::new(),
    }
}

/// jiff's time zone, carried through to the offset lookup.
#[verifier::external_type_specification]
#[verifier::external_body]
pub struct ExTimeZone(jiff::tz::TimeZone);

/// jiff's `TimeZone::to_offset`: the UTC offset, in seconds, that `zone` has at the instant.
/// jiff documents every offset as lying in `-25:59:59..=25:59:59`; which one a zone has depends
/// on its rules (for the system zone, on the machine), so nothing more is stated of the value.
/// It is public so that the contracts that render in a zone can say that their offset is the
/// one this lookup returned for that zone and instant.
#[verifier::external_body]
pub fn zone_offset_seconds(zone: &jiff::tz::TimeZone, second: i64, nanosecond: i32) -> (res: i32)
    requires
        instant_parts_valid(second, nanosecond),
    ensures
        offset_valid(res),
{
    match jiff::Timestamp::new(second, nanosecond) {
        Ok(timestamp) => zone.to_offset(timestamp).seconds(),
        Err(_) => 0,
    }
}

/// The civil `(month, day, hour, minute, second)` jiff gives for the instant
/// `(second, nanosecond)` seen at the fixed UTC offset `offset_seconds`.
pub uninterp spec fn jiff_civil_at_offset(second: i64, nanosecond: i32, offset_seconds: i32) -> (
    i8,
    i8,
    i8,
    i8,
    i8,
);

/// jiff's `Timestamp::to_zoned` at a fixed offset, read back through `Zoned::month`, `day`,
/// `hour`, `minute` and `second`. The contract names the result and states the ranges jiff
/// documents for those fields.
#[verifier::external_body]
fn civil_at_offset(second: i64, nanosecond: i32, offset_seconds: i32) -> (res: (i8, i8, i8, i8, i8))
    requires
        instant_parts_valid(second, nanosecond),
        offset_valid(offset_seconds),
    ensures
        res == jiff_civil_at_offset(second, nanosecond, offset_seconds),
        1 <= res.0 <= 12,
        1 <= res.1 <= 31,
        0 <= res.2 <= 23,
        0 <= res.3 <= 59,
        0 <= res.4 <= 59,
{
    match (jiff::Timestamp::new(second, nanosecond), jiff::tz::Offset::from_seconds(offset_seconds)) {
        (Ok(timestamp), Ok(offset)) => {
            let zoned = timestamp.to_zoned(jiff::tz::TimeZone::fixed(offset));
            (zoned.month(), zoned.day(), zoned.hour(), zoned.minute(), zoned.second())
        },
        _ => (1, 1, 0, 0, 0),
    }
}

/// The text of the error jiff reports when adding `seconds` to the instant
/// `(second, nanosecond)` leaves the supported range.
pub uninterp spec fn jiff_checked_add_error(second: i64, nanosecond: i32, seconds: i64) -> Seq<
    char,
>;

/// Whether the instant `(second, nanosecond)` moved by `seconds` stays in jiff's range.
pub open spec fn add_in_range(second: i64, nanosecond: i32, seconds: i64) -> bool {
    let t = total_nanos(second + seconds, nanosecond as int);
    total_nanos(MIN_UNIX_SECOND as int, 0) <= t <= total_nanos(MAX_UNIX_SECOND as int, 999_999_999)
}

/// jiff's `Timestamp::checked_add` of `SignedDuration::from_secs(seconds)`: the moved instant
/// in jiff's normalized parts when it stays in range, else the error's text (named).
#[verifier::external_body]
fn checked_add_seconds(second: i64, nanosecond: i32, seconds: i64) -> (res: Result<(i64, i32), String>)
    requires
        instant_parts_valid(second, nanosecond),
    ensures
        res is Ok <==> add_in_range(second, nanosecond, seconds),
        res matches Ok(parts) ==> instant_parts_valid(parts.0, parts.1) && total_nanos(
            parts.0 as int,
            parts.1 as int,
        ) == total_nanos(second + seconds, nanosecond as int),
        res matches Err(message) ==> message@ == jiff_checked_add_error(second, nanosecond, seconds),
{
    match jiff::Timestamp::new(second, nanosecond) {
        Ok(timestamp) => match timestamp.checked_add(jiff::SignedDuration::from_secs(seconds)) {
            Ok(moved) => Ok((moved.as_second(), moved.subsec_nanosecond())),
            Err(error) => Err(error.to_string()),
        },
        Err(error) => Err(error.to_string()),
    }
}

/// The instant moved by a whole number of seconds, or the reason it cannot be.
pub fn instant_plus_seconds(instant: &Instant, seconds: i64) -> (res: Result<Instant, String>)
    ensures
        res is Ok <==> add_in_range(instant@.0, instant@.1, seconds),
        res matches Ok(moved) ==> total_nanos(moved@.0 as int, moved@.1 as int) == total_nanos(
            instant@.0 + seconds,
            instant@.1 as int,
        ) && instant_parts_valid(moved@.0, moved@.1),
        res matches Err(message) ==> message@ == jiff_checked_add_error(
            instant@.0,
            instant@.1,
            seconds,
        ),
{
    let second = instant.second();
    let nanosecond = instant.nanosecond();
    match checked_add_seconds(second, nanosecond, seconds) {
        Ok(parts) => Ok(Instant { second: parts.0, nanosecond: parts.1 }),
        Err(message) => Err(message),
    }
}

/// The systemd `OnCalendar=` format: `YYYY-MM-DD HH:MM:SS UTC`.
pub open spec fn systemd_calendar_format() -> Seq<char> {
    "%Y-%m-%d %H:%M:%S UTC"@
}

/// systemd `OnCalendar=` value in UTC: `YYYY-MM-DD HH:MM:SS UTC`.
pub fn systemd_calendar(timestamp: &Instant) -> (res: String)
    ensures
        res@ == jiff_strftime_at_offset(timestamp@.0, timestamp@.1, 0, systemd_calendar_format()),
{
    let second = timestamp.second();
    let nanosecond = timestamp.nanosecond();
    strftime_at_offset(second, nanosecond, 0, "%Y-%m-%d %H:%M:%S UTC")
}

/// The Task Scheduler boundary format: `YYYY-MM-DDTHH:MM:SS`.
pub open spec fn windows_boundary_format() -> Seq<char> {
    "%Y-%m-%dT%H:%M:%S"@
}

/// Windows Task Scheduler local boundary `YYYY-MM-DDTHH:MM:SS` at the given UTC offset.
pub fn windows_boundary_at_offset(timestamp: &Instant, offset_seconds: i32) -> (res: String)
    requires
        offset_valid(offset_seconds),
    ensures
        res@ == jiff_strftime_at_offset(
            timestamp@.0,
            timestamp@.1,
            offset_seconds,
            windows_boundary_format(),
        ),
{
    let second = timestamp.second();
    let nanosecond = timestamp.nanosecond();
    strftime_at_offset(second, nanosecond, offset_seconds, "%Y-%m-%dT%H:%M:%S")
}

/// The UTC offset, in seconds, that `zone` has at the instant (jiff's `TimeZone::to_offset`).
pub fn zone_offset(zone: &jiff::tz::TimeZone, timestamp: &Instant) -> (res: i32)
    ensures
        offset_valid(res),
        call_ensures(zone_offset_seconds, (zone, timestamp@.0, timestamp@.1), res),
{
    let second = timestamp.second();
    let nanosecond = timestamp.nanosecond();
    zone_offset_seconds(zone, second, nanosecond)
}

/// Windows Task Scheduler local boundary `YYYY-MM-DDTHH:MM:SS` rendered in `zone`: the
/// boundary at the offset `zone` has at that instant, as `zone_offset` looks it up for this
/// zone and instant (and not at any other offset).
pub fn windows_boundary(timestamp: &Instant, zone: &jiff::tz::TimeZone) -> (res: String)
    ensures
        exists|offset: i32|
            call_ensures(zone_offset, (zone, timestamp), offset) &&
            offset_valid(offset) && res@ == #[trigger] jiff_strftime_at_offset(
                timestamp@.0,
                timestamp@.1,
                offset,
                windows_boundary_format(),
            ),
{
    let offset = zone_offset(zone, timestamp);
    windows_boundary_at_offset(timestamp, offset)
}

/// launchd `StartCalendarInterval` fields (minute-granular; `second` is recorded but not
/// honored).
#[derive(Debug)]
pub struct CalendarInterval {
    pub month: i8,
    pub day: i8,
    pub hour: i8,
    pub minute: i8,
    pub second: i8,
}

/// The launchd calendar fields of the instant at the given UTC offset.
pub fn calendar_interval_at_offset(timestamp: &Instant, offset_seconds: i32) -> (res:
    CalendarInterval)
    requires
        offset_valid(offset_seconds),
    ensures
        (res.month, res.day, res.hour, res.minute, res.second) == jiff_civil_at_offset(
            timestamp@.0,
            timestamp@.1,
            offset_seconds,
        ),
        1 <= res.month <= 12,
        1 <= res.day <= 31,
        0 <= res.hour <= 23,
        0 <= res.minute <= 59,
        0 <= res.second <= 59,
{
    let second = timestamp.second();
    let nanosecond = timestamp.nanosecond();
    let fields = civil_at_offset(second, nanosecond, offset_seconds);
    CalendarInterval {
        month: fields.0,
        day: fields.1,
        hour: fields.2,
        minute: fields.3,
        second: fields.4,
    }
}

/// launchd `StartCalendarInterval` components for `timestamp` rendered in `zone`: the
/// calendar fields at the offset `zone` has at that instant, as `zone_offset` looks it up for
/// this zone and instant.
pub fn calendar_interval(timestamp: &Instant, zone: &jiff::tz::TimeZone) -> (res: CalendarInterval)
    ensures
        exists|offset: i32|
            call_ensures(zone_offset, (zone, timestamp), offset) && offset_valid(offset) && (res.month, res.day, res.hour, res.minute, res.second)
                == #[trigger] jiff_civil_at_offset(timestamp@.0, timestamp@.1, offset),
        1 <= res.month <= 12,
        1 <= res.day <= 31,
        0 <= res.hour <= 23,
        0 <= res.minute <= 59,
        0 <= res.second <= 59,
{
    let offset = zone_offset(zone, timestamp);
    calendar_interval_at_offset(timestamp, offset)
}

} // verus!
