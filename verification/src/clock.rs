//! Spans of time and points in time.

use vstd::prelude::*;

verus! {

/// A span of time: `secs` whole seconds and `nanos` nanoseconds, fewer than a second's worth.
#[derive(Clone, Copy, Debug, PartialEq, Eq, PartialOrd, Ord, Hash)]
pub struct Duration {
    pub secs: u64,
    pub nanos: u32,
}

impl Duration {
    /// A span of `secs` whole seconds.
    pub fn from_secs(secs: u64) -> (r: Self)
        ensures
            r == Self::whole(secs),
    {
        Duration { secs, nanos: 0 }
    }

    /// The number of whole seconds in the span.
    pub fn as_secs(&self) -> (r: u64)
        ensures
            r == self.secs,
    {
        self.secs
    }

    /// The span of `secs` whole seconds.
    pub open spec fn whole(secs: u64) -> Self {
        Duration { secs, nanos: 0 }
    }
}

/// A point in time: seconds since the Unix epoch, and nanoseconds past that second.
#[derive(Clone, Copy, Debug, PartialEq, Eq, PartialOrd, Ord, Hash)]
pub struct Time {
    pub seconds: i64,
    pub nanos: u32,
}

/// The first second of the year 1.
pub const MIN_SECONDS: i64 = -62_135_596_800;

/// The last second of the year 9999.
pub const MAX_SECONDS: i64 = 253_402_300_799;

impl Time {
    /// Whether the point lies in the years 1 to 9999 and its nanoseconds make less than a second.
    pub open spec fn valid(self) -> bool {
        &&& MIN_SECONDS <= self.seconds <= MAX_SECONDS
        &&& self.nanos <= 999_999_999
    }

    /// The time that a timestamp stands for, if it stands for one.
    pub open spec fn of_timestamp(seconds: i64, nanos: i32) -> Option<Time> {
        if MIN_SECONDS <= seconds <= MAX_SECONDS && 0 <= nanos <= 999_999_999 {
            Some(Time { seconds, nanos: nanos as u32 })
        } else {
            None
        }
    }

    /// Reads a timestamp: `None` where it lies outside the years 1 to 9999, or where its
    /// nanoseconds are negative or make a whole second.
    pub fn from_timestamp(seconds: i64, nanos: i32) -> (r: Option<Time>)
        ensures
            r == Self::of_timestamp(seconds, nanos),
            r matches Some(time) ==> time.valid(),
    {
        match checked_time(seconds, nanos) {
            Some((seconds, nanos)) => Some(Time { seconds, nanos: nanos as u32 }),
            None => None,
        }
    }
}

/// Trusted: `tendermint::Time::try_from` takes a protobuf timestamp in the years 1 to 9999 whose
/// nanoseconds are in `0..=999_999_999`, and refuses every other; `Timestamp::from` gives back the
/// seconds and nanoseconds that went in.
#[verifier::external_body]
fn checked_time(seconds: i64, nanos: i32) -> (r: Option<(i64, i32)>)
    ensures
        r is Some <==> (MIN_SECONDS <= seconds <= MAX_SECONDS && 0 <= nanos <= 999_999_999),
        r is Some ==> r->0 == (seconds, nanos),
{
    let stamp = tendermint_proto::google::protobuf::Timestamp { seconds, nanos };
    let time = tendermint::Time::try_from(stamp).ok()?;
    let stamp = tendermint_proto::google::protobuf::Timestamp::from(time);
    Some((stamp.seconds, stamp.nanos))
}

/// Whether this is a point in time in the form `2024-01-31T12:00:00.000000000Z`: a year of four
/// digits or more, month, day, hour, minute and second of two digits each, and nine digits of a
/// fraction.
pub open spec fn is_time_text(text: Seq<char>) -> bool {
    let n = text.len() as int;
    &&& n >= 30
    &&& text[n - 26] == '-'
    &&& text[n - 23] == '-'
    &&& text[n - 20] == 'T'
    &&& text[n - 17] == ':'
    &&& text[n - 14] == ':'
    &&& text[n - 11] == '.'
    &&& text[n - 1] == 'Z'
    &&& forall|i: int|
        n - 30 <= i < n - 1 && !(i == n - 26 || i == n - 23 || i == n - 20 || i == n - 17 || i == n
            - 14 || i == n - 11) ==> '0' <= #[trigger] text[i] <= '9'
}

/// Trusted: the current time of `chrono::Utc`, written by `DateTime::format`, has the form
/// `2024-01-31T12:00:00.000000000Z`. Which time it is depends on when it is asked.
#[verifier::external_body]
pub(crate) fn current_time_text() -> (r: String)
    ensures
        is_time_text(r@),
{
    chrono::Utc::now().format("%Y-%m-%dT%H:%M:%S%.9fZ").to_string()
}

} // verus!
