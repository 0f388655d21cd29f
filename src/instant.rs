//! Instants: a calendar date and time of day read at a fixed offset from UTC.

use crate::calendar::{
    days_from_epoch, days_in_month, is_valid_date, supported_year, Day, Month, Year, MAX_YEAR, MIN_YEAR,
};
use chrono::FixedOffset;
use chrono::NaiveDate;
use chrono::TimeZone;
use vstd::prelude::*;

verus! {

/// The number of seconds since 1970-01-01T00:00:00 UTC, leap seconds not
/// counted, of the local date and time given, read at `offset` seconds east
/// of UTC.
pub open spec fn unix_seconds(
    year: int,
    month: int,
    day: int,
    hour: int,
    minute: int,
    second: int,
    offset: int,
) -> int {
    days_from_epoch(year, month, day) * 86_400 + hour * 3600 + minute * 60 + second - offset
}

/// Whether the time of day is one that chrono's times hold: a nanosecond
/// count of a second or more stands for a leap second, on second 59 only.
pub open spec fn is_valid_time(hour: int, minute: int, second: int, nanosecond: int) -> bool {
    &&& 0 <= hour < 24
    &&& 0 <= minute < 60
    &&& 0 <= second < 60
    &&& 0 <= nanosecond < 2_000_000_000
    &&& (nanosecond >= 1_000_000_000 ==> second == 59)
}

/// Whether `offset` seconds east of UTC is an offset that chrono accepts.
pub open spec fn is_valid_offset(offset: int) -> bool {
    -86_400 < offset < 86_400
}

/// Whether the parts name an instant whose date, read in UTC, chrono's dates
/// still hold: only the first day of the earliest year and the last day of
/// the latest year can cross that bound.
pub open spec fn utc_date_in_range(
    year: int,
    month: int,
    day: int,
    hour: int,
    minute: int,
    second: int,
    offset: int,
) -> bool {
    let utc_second_of_day = hour * 3600 + minute * 60 + second - offset;
    &&& !(year == MIN_YEAR && month == 1 && day == 1 && utc_second_of_day < 0)
    &&& !(year == MAX_YEAR && month == 12 && day == 31 && utc_second_of_day >= 86_400)
}

/// Whether the parts make an instant.
pub open spec fn is_valid_instant(
    year: int,
    month: int,
    day: int,
    hour: int,
    minute: int,
    second: int,
    nanosecond: int,
    offset: int,
) -> bool {
    &&& supported_year(year)
    &&& is_valid_date(year, month, day)
    &&& is_valid_time(hour, minute, second, nanosecond)
    &&& is_valid_offset(offset)
    &&& utc_date_in_range(year, month, day, hour, minute, second, offset)
}

/// Relies on chrono's `FixedOffset::east_opt`, `NaiveDate::from_ymd_opt`,
/// `NaiveDate::and_hms_nano_opt` and `TimeZone::from_local_datetime`, which
/// together build a `DateTime<FixedOffset>` from local parts, failing exactly
/// on the parts that `is_valid_instant` rules out, and on
/// `DateTime::timestamp`, the whole seconds of that instant since the epoch.
#[verifier::external_body]
fn chrono_timestamp(
    year: i32,
    month: u32,
    day: u32,
    hour: u32,
    minute: u32,
    second: u32,
    nanosecond: u32,
    offset: i32,
) -> (r: Option<i64>)
    ensures
        r is Some <==> is_valid_instant(
            year as int,
            month as int,
            day as int,
            hour as int,
            minute as int,
            second as int,
            nanosecond as int,
            offset as int,
        ),
        r matches Some(t) ==> t == unix_seconds(
            year as int,
            month as int,
            day as int,
            hour as int,
            minute as int,
            second as int,
            offset as int,
        ),
{
    let zone = FixedOffset::east_opt(offset)?;
    let local = NaiveDate::from_ymd_opt(year, month, day)?.and_hms_nano_opt(
        hour,
        minute,
        second,
        nanosecond,
    )?;
    zone.from_local_datetime(&local).single().map(|t| t.timestamp())
}

/// A point in time, kept as the calendar date and time of day that a clock
/// at a fixed offset from UTC shows at it.
#[derive(Debug, Clone, Copy, PartialEq, Eq, Structural)]
pub struct Instant {
    year: i32,
    month: u32,
    day: u32,
    hour: u32,
    minute: u32,
    second: u32,
    nanosecond: u32,
    offset: i32,
    timestamp: i64,
}

impl Instant {
    #[verifier::type_invariant]
    spec fn inv(&self) -> bool {
        &&& is_valid_instant(
            self.year as int,
            self.month as int,
            self.day as int,
            self.hour as int,
            self.minute as int,
            self.second as int,
            self.nanosecond as int,
            self.offset as int,
        )
        &&& self.timestamp == unix_seconds(
            self.year as int,
            self.month as int,
            self.day as int,
            self.hour as int,
            self.minute as int,
            self.second as int,
            self.offset as int,
        )
    }

    pub closed spec fn spec_year(&self) -> i32 {
        self.year
    }

    pub closed spec fn spec_month(&self) -> u32 {
        self.month
    }

    pub closed spec fn spec_day(&self) -> u32 {
        self.day
    }

    pub closed spec fn spec_hour(&self) -> u32 {
        self.hour
    }

    pub closed spec fn spec_minute(&self) -> u32 {
        self.minute
    }

    pub closed spec fn spec_second(&self) -> u32 {
        self.second
    }

    pub closed spec fn spec_nanosecond(&self) -> u32 {
        self.nanosecond
    }

    pub closed spec fn spec_offset(&self) -> i32 {
        self.offset
    }

    /// Where the instant lies on the time line: whole seconds since the epoch.
    pub closed spec fn spec_timestamp(&self) -> i64 {
        self.timestamp
    }

    /// Whether the parts make an instant and the timestamp is theirs: true of
    /// every value of the type, which `from_parts` alone builds.
    pub open spec fn has_valid_parts(&self) -> bool {
        &&& is_valid_instant(
            self.spec_year() as int,
            self.spec_month() as int,
            self.spec_day() as int,
            self.spec_hour() as int,
            self.spec_minute() as int,
            self.spec_second() as int,
            self.spec_nanosecond() as int,
            self.spec_offset() as int,
        )
        &&& self.spec_timestamp() == unix_seconds(
            self.spec_year() as int,
            self.spec_month() as int,
            self.spec_day() as int,
            self.spec_hour() as int,
            self.spec_minute() as int,
            self.spec_second() as int,
            self.spec_offset() as int,
        )
    }

    /// Whether `self` lies strictly after `other` on the time line, whatever
    /// the offsets at which the two are read.
    pub open spec fn spec_is_after(&self, other: &Instant) -> bool {
        self.spec_timestamp() > other.spec_timestamp() || (self.spec_timestamp()
            == other.spec_timestamp() && self.spec_nanosecond() > other.spec_nanosecond())
    }

    /// The instant at the given local date and time, read at `offset` seconds
    /// east of UTC; `None` where the parts make no instant.
    pub fn from_parts(
        year: Year,
        month: u32,
        day: Day,
        hour: u32,
        minute: u32,
        second: u32,
        nanosecond: u32,
        offset: i32,
    ) -> (r: Option<Instant>)
        ensures
            r is Some <==> is_valid_instant(
                year as int,
                month as int,
                day as int,
                hour as int,
                minute as int,
                second as int,
                nanosecond as int,
                offset as int,
            ),
            r matches Some(i) ==> {
                &&& i.spec_year() == year
                &&& i.spec_month() == month
                &&& i.spec_day() == day
                &&& i.spec_hour() == hour
                &&& i.spec_minute() == minute
                &&& i.spec_second() == second
                &&& i.spec_nanosecond() == nanosecond
                &&& i.spec_offset() == offset
            },
    {
        match chrono_timestamp(year, month, day, hour, minute, second, nanosecond, offset) {
            Some(timestamp) => Some(
                Instant { year, month, day, hour, minute, second, nanosecond, offset, timestamp },
            ),
            None => None,
        }
    }

    /// The instant at noon of the given date, read at `offset` seconds east
    /// of UTC, with no fraction of a second.
    pub fn from_ymd_hms(
        year: Year,
        month: u32,
        day: Day,
        hour: u32,
        minute: u32,
        second: u32,
        offset: i32,
    ) -> (r: Option<Instant>)
        ensures
            r is Some <==> is_valid_instant(
                year as int,
                month as int,
                day as int,
                hour as int,
                minute as int,
                second as int,
                0,
                offset as int,
            ),
            r matches Some(i) ==> {
                &&& i.spec_year() == year
                &&& i.spec_month() == month
                &&& i.spec_day() == day
                &&& i.spec_hour() == hour
                &&& i.spec_minute() == minute
                &&& i.spec_second() == second
                &&& i.spec_nanosecond() == 0
                &&& i.spec_offset() == offset
            },
    {
        Instant::from_parts(year, month, day, hour, minute, second, 0, offset)
    }

    #[verifier::when_used_as_spec(spec_year)]
    pub fn year(&self) -> (r: Year)
        ensures
            r == self.spec_year(),
            supported_year(r as int),
            self.has_valid_parts(),
    {
        proof {
            use_type_invariant(self);
        }
        self.year
    }

    #[verifier::when_used_as_spec(spec_month)]
    pub fn month(&self) -> (r: u32)
        ensures
            r == self.spec_month(),
            1 <= r <= 12,
    {
        proof {
            use_type_invariant(self);
        }
        self.month
    }

    #[verifier::when_used_as_spec(spec_day)]
    pub fn day(&self) -> (r: Day)
        ensures
            r == self.spec_day(),
            1 <= r <= days_in_month(self.spec_year() as int, self.spec_month() as int),
    {
        proof {
            use_type_invariant(self);
        }
        self.day
    }

    #[verifier::when_used_as_spec(spec_hour)]
    pub fn hour(&self) -> (r: u32)
        ensures
            r == self.spec_hour(),
    {
        self.hour
    }

    #[verifier::when_used_as_spec(spec_minute)]
    pub fn minute(&self) -> (r: u32)
        ensures
            r == self.spec_minute(),
    {
        self.minute
    }

    #[verifier::when_used_as_spec(spec_second)]
    pub fn second(&self) -> (r: u32)
        ensures
            r == self.spec_second(),
    {
        self.second
    }

    #[verifier::when_used_as_spec(spec_nanosecond)]
    pub fn nanosecond(&self) -> (r: u32)
        ensures
            r == self.spec_nanosecond(),
    {
        self.nanosecond
    }

    /// Seconds east of UTC at which the instant is read.
    #[verifier::when_used_as_spec(spec_offset)]
    pub fn offset(&self) -> (r: i32)
        ensures
            r == self.spec_offset(),
    {
        self.offset
    }

    /// Whole seconds since 1970-01-01T00:00:00 UTC.
    #[verifier::when_used_as_spec(spec_timestamp)]
    pub fn timestamp(&self) -> (r: i64)
        ensures
            r == self.spec_timestamp(),
    {
        self.timestamp
    }

    /// Whether `self` lies strictly after `other` on the time line.
    pub fn is_after(&self, other: &Instant) -> (r: bool)
        ensures
            r == self.spec_is_after(other),
    {
        self.timestamp > other.timestamp || (self.timestamp == other.timestamp
            && self.nanosecond > other.nanosecond)
    }

    /// The same time of day at the same offset on the date `year`, `month`,
    /// `day`; `None` where that date does not exist or leaves the years that
    /// instants can hold.
    pub fn with_date(&self, year: Year, month: Month, day: Day) -> (r: Option<Instant>)
        ensures
            r is Some <==> is_valid_instant(
                year as int,
                month.spec_number(),
                day as int,
                self.spec_hour() as int,
                self.spec_minute() as int,
                self.spec_second() as int,
                self.spec_nanosecond() as int,
                self.spec_offset() as int,
            ),
            r matches Some(i) ==> {
                &&& i.spec_year() == year
                &&& i.spec_month() == month.spec_number()
                &&& i.spec_day() == day
                &&& i.spec_hour() == self.spec_hour()
                &&& i.spec_minute() == self.spec_minute()
                &&& i.spec_second() == self.spec_second()
                &&& i.spec_nanosecond() == self.spec_nanosecond()
                &&& i.spec_offset() == self.spec_offset()
            },
    {
        Instant::from_parts(
            year,
            month.number(),
            day,
            self.hour,
            self.minute,
            self.second,
            self.nanosecond,
            self.offset,
        )
    }
}

} // verus!
