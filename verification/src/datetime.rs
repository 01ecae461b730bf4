//! Points in time as records hold them, read and written in the RFC 3339 form by `chrono`.

use vstd::prelude::*;

verus! {

/// A point in time with the offset from UTC under which it was given.
#[derive(Clone, Copy, Debug, PartialEq, Eq, Structural)]
pub struct DateTime {
    /// Whole seconds since the beginning of 1970, UTC.
    pub timestamp: i64,
    /// Nanoseconds since the last whole second; a billion and more within a leap second.
    pub nanos: u32,
    /// Seconds by which the local time is ahead of UTC.
    pub offset: i32,
}

/// The first second that can be written: a day before the year 0 begins.
pub const MIN_TIMESTAMP: i64 = -62_167_305_600;

/// The last second that can be written: a day after the year 9999 ends.
pub const MAX_TIMESTAMP: i64 = 253_402_387_199;

/// The point in time that `chrono::DateTime::parse_from_rfc3339` reads from a text, if it
/// reads one.
pub uninterp spec fn parsed_datetime(text: Seq<char>) -> Option<DateTime>;

/// The text that `chrono::DateTime::to_rfc3339_opts` writes for a point in time, with
/// milliseconds and with `Z` for UTC.
pub uninterp spec fn datetime_text(datetime: DateTime) -> Seq<char>;

impl DateTime {
    /// Whether the point in time can be written: it lies between the years 0 and 9999 or within
    /// a day of them, outside a leap second, and its offset is less than a day.
    pub open spec fn writable(self) -> bool {
        &&& MIN_TIMESTAMP <= self.timestamp <= MAX_TIMESTAMP
        &&& self.nanos < 1_000_000_000
        &&& -86_400 < self.offset < 86_400
    }

    /// Whether the point in time can be written.
    pub fn is_writable(&self) -> (r: bool)
        ensures
            r == self.writable(),
    {
        MIN_TIMESTAMP <= self.timestamp && self.timestamp <= MAX_TIMESTAMP && self.nanos
            < 1_000_000_000 && -86_400 < self.offset && self.offset < 86_400
    }

    /// Whether both are the same point in time, under whatever offsets.
    pub open spec fn same_instant(self, other: DateTime) -> bool {
        self.timestamp == other.timestamp && self.nanos == other.nanos
    }

    /// Whether both are the same point in time, under whatever offsets.
    pub fn is_same_instant(&self, other: &DateTime) -> (r: bool)
        ensures
            r == self.same_instant(*other),
    {
        self.timestamp == other.timestamp && self.nanos == other.nanos
    }
}

/// Calls `chrono::DateTime::parse_from_rfc3339`, drops the error if the text is no date, and
/// takes the date apart into its seconds, nanoseconds and offset.
#[verifier::external_body]
pub(crate) fn parse_datetime(text: &str) -> (r: Option<DateTime>)
    ensures
        r == parsed_datetime(text@),
{
    match chrono::DateTime::parse_from_rfc3339(text) {
        Ok(parsed) => Some(
            DateTime {
                timestamp: parsed.timestamp(),
                nanos: parsed.timestamp_subsec_nanos(),
                offset: parsed.offset().local_minus_utc(),
            },
        ),
        Err(_) => None,
    }
}

/// Puts the date together from its parts and calls `chrono::DateTime::to_rfc3339_opts` with
/// milliseconds and `Z`. The date must be writable: `chrono` panics on a local time outside
/// its range.
#[verifier::external_body]
pub(crate) fn stringify_datetime(datetime: &DateTime) -> (r: String)
    requires
        datetime.writable(),
    ensures
        r@ == datetime_text(*datetime),
{
    chrono::DateTime::from_timestamp(datetime.timestamp, datetime.nanos)
        .unwrap()
        .with_timezone(&chrono::FixedOffset::east_opt(datetime.offset).unwrap())
        .to_rfc3339_opts(chrono::SecondsFormat::Millis, true)
}

/// The point in time that a text in the RFC 3339 form stands for.
pub fn read_datetime(text: &str) -> (r: Option<DateTime>)
    ensures
        r == parsed_datetime(text@),
{
    parse_datetime(text)
}

/// The text of a point in time in the RFC 3339 form, if the point can be written.
pub fn write_datetime(datetime: &DateTime) -> (r: Option<String>)
    ensures
        r.deep_view() == if datetime.writable() {
            Some(datetime_text(*datetime))
        } else {
            None
        },
{
    if datetime.is_writable() {
        Some(stringify_datetime(datetime))
    } else {
        None
    }
}

} // verus!
