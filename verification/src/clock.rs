//! Points in time, and what the `chrono` crate knows of the calendar.

use chrono::{Datelike, TimeZone};
use vstd::prelude::*;

verus! {

/// The first and the last second, counted from 1970-01-01T00:00:00Z, that `chrono` can tell.
pub const FIRST_SECOND: i64 = -8334601228800;

pub const LAST_SECOND: i64 = 8210266876799;

/// The first and the last day that `chrono` can tell, counted so that 0001-01-01 is day 1.
pub const FIRST_DAY: i32 = -95746129;

pub const LAST_DAY: i32 = 95745399;

/// The number of 1970-01-01 in that count.
pub const EPOCH_DAY: i32 = 719163;

/// Seconds in a day.
pub const DAY: i64 = 86400;

/// Year, month and day.
pub const DATE_FORMAT: &'static str = "%Y-%m-%d";

/// Year, month and day, then hour, minute and second.
pub const STAMP_FORMAT: &'static str = "%Y%m%d_%H%M%S";

/// A point in time: whole seconds since 1970-01-01T00:00:00Z, and nanoseconds after that.
#[derive(Debug, Copy, Clone, PartialEq, Eq, Structural)]
pub struct Timestamp {
    pub secs: i64,
    pub nanos: u32,
}

impl Timestamp {
    /// The point lies in the range of the calendar, and is not within a leap second.
    pub open spec fn wf(self) -> bool {
        FIRST_SECOND <= self.secs <= LAST_SECOND && self.nanos < 1000000000
    }

    /// The day that the point lies in.
    pub open spec fn day(self) -> int {
        self.secs as int / DAY as int + EPOCH_DAY
    }

    /// A point in time, where the calendar has it.
    pub fn new(secs: i64, nanos: u32) -> (res: Option<Timestamp>)
        ensures
            res == (if (Timestamp { secs, nanos }).wf() {
                Some(Timestamp { secs, nanos })
            } else {
                None
            }),
    {
        if FIRST_SECOND <= secs && secs <= LAST_SECOND && nanos < 1000000000 {
            Some(Timestamp { secs, nanos })
        } else {
            None
        }
    }

    /// This point lies before the other.
    pub open spec fn is_before(self, other: Timestamp) -> bool {
        self.secs < other.secs || (self.secs == other.secs && self.nanos < other.nanos)
    }

    /// Whether this point lies before the other.
    pub fn before(self, other: Timestamp) -> (res: bool)
        ensures
            res == self.is_before(other),
    {
        self.secs < other.secs || (self.secs == other.secs && self.nanos < other.nanos)
    }
}

/// `DateTime<Utc> - TimeDelta` of chrono, with the delta from `TimeDelta::seconds`: the point
/// that many seconds earlier. It panics where the calendar has no such point.
#[verifier::external_body]
pub(crate) fn seconds_before(at: Timestamp, seconds: i64) -> (res: Timestamp)
    requires
        at.wf(),
        0 <= seconds,
        FIRST_SECOND <= at.secs - seconds,
    ensures
        res.secs == at.secs - seconds,
        res.nanos == at.nanos,
{
    let end = chrono::DateTime::<chrono::Utc>::from_timestamp(at.secs, at.nanos)
        .expect("a point of the calendar");
    let start = end - chrono::Duration::seconds(seconds);
    Timestamp { secs: start.timestamp(), nanos: start.timestamp_subsec_nanos() }
}

/// `DateTime::timestamp_millis` of chrono: whole milliseconds since the epoch, rounded down.
#[verifier::external_body]
pub(crate) fn epoch_millis(at: Timestamp) -> (millis: i64)
    requires
        at.wf(),
    ensures
        millis == at.secs * 1000 + at.nanos / 1000000,
{
    chrono::DateTime::<chrono::Utc>::from_timestamp(at.secs, at.nanos)
        .expect("a point of the calendar")
        .timestamp_millis()
}

/// `NaiveDate::and_hms_opt` of chrono, then `Utc::from_utc_datetime`: the point at that time of a
/// day.
#[verifier::external_body]
pub(crate) fn utc_at(day: i32, hour: u32, minute: u32, second: u32) -> (res: Timestamp)
    requires
        FIRST_DAY <= day <= LAST_DAY,
        hour < 24,
        minute < 60,
        second < 60,
    ensures
        res.secs == (day - EPOCH_DAY) * DAY + hour * 3600 + minute * 60 + second,
        res.nanos == 0,
{
    let date = chrono::NaiveDate::from_num_days_from_ce_opt(day).expect("a day of the calendar");
    let time = date.and_hms_opt(hour, minute, second).expect("a time of the day");
    let at = chrono::Utc.from_utc_datetime(&time);
    Timestamp { secs: at.timestamp(), nanos: at.timestamp_subsec_nanos() }
}

/// The day that `NaiveDate::parse_from_str` of chrono reads in a text under a format.
pub uninterp spec fn parsed_date(text: Seq<char>, format: Seq<char>) -> Option<i32>;

/// `NaiveDate::parse_from_str` of chrono: the day that a text names under a format, or nothing
/// where the text does not follow the format.
#[verifier::external_body]
pub(crate) fn parse_date(text: &str, format: &str) -> (day: Option<i32>)
    requires
        format@ == DATE_FORMAT@,
    ensures
        day == parsed_date(text@, format@),
        day matches Some(d) ==> FIRST_DAY <= d <= LAST_DAY,
{
    match chrono::NaiveDate::parse_from_str(text, format) {
        Ok(date) => Some(date.num_days_from_ce()),
        Err(_) => None,
    }
}

/// The text that `DateTime::format` of chrono writes for a point in time under a format.
pub uninterp spec fn formatted(secs: i64, nanos: u32, format: Seq<char>) -> Seq<char>;

/// `DateTime<Utc>::format` of chrono, written out. A date that it writes is read back as the
/// day that the point lies in.
#[verifier::external_body]
pub(crate) fn format_utc(at: Timestamp, format: &str) -> (res: String)
    requires
        at.wf(),
        format@ == DATE_FORMAT@ || format@ == STAMP_FORMAT@,
    ensures
        res@ == formatted(at.secs, at.nanos, format@),
        format@ == DATE_FORMAT@ ==> parsed_date(res@, format@) == Some(at.day() as i32),
{
    chrono::DateTime::<chrono::Utc>::from_timestamp(at.secs, at.nanos)
        .expect("a point of the calendar")
        .format(format)
        .to_string()
}

// ---------------------------------------------------------------------------
// Laws
// ---------------------------------------------------------------------------

impl Timestamp {
    /// Nanoseconds since the epoch.
    pub open spec fn since_epoch(self) -> int {
        self.secs * 1000000000 + self.nanos
    }
}

/// A point lies in its day: at its midnight or later, and before the next one.
pub proof fn day_holds_its_points(at: Timestamp)
    ensures
        (at.day() - 719163) * 86400 <= at.secs < (at.day() - 719163 + 1) * 86400,
{
}

/// One point lies before another exactly when fewer nanoseconds have passed.
pub proof fn before_is_fewer_nanoseconds(a: Timestamp, b: Timestamp)
    requires
        a.nanos < 1000000000,
        b.nanos < 1000000000,
    ensures
        a.is_before(b) <==> a.since_epoch() < b.since_epoch(),
{
}

/// The points that the calendar has: those of its days, to the nanosecond.
pub proof fn calendar_has_its_days(at: Timestamp)
    ensures
        at.wf() <==> -95746129 <= at.day() <= 95745399 && at.nanos < 1000000000,
{
}

} // verus!
