//! The date and time of day.

use chrono::{DateTime, SecondsFormat, Utc};
use vstd::prelude::*;

verus! {

/// The last second of the calendar, counted from the start of 1970 in UTC.
pub const LAST_SECOND: i64 = 8_210_266_876_799;

/// The last millisecond of the calendar, counted from the start of 1970 in UTC.
pub const LAST_MILLISECOND: i64 = 8_210_266_876_799_999;

/// A moment in UTC: the whole seconds since the start of 1970, and the nanoseconds
/// since the last of them.
#[derive(Debug, Clone, Copy, PartialEq, Eq, Structural)]
pub struct Timestamp {
    pub secs: i64,
    pub subsec_nanos: u32,
}

impl Timestamp {
    /// The moment lies between the start of 1970 and the end of the calendar, and
    /// its fraction is less than a second.
    pub open spec fn valid(self) -> bool {
        0 <= self.secs <= LAST_SECOND && self.subsec_nanos < 1_000_000_000
    }

    /// The whole milliseconds since the start of 1970.
    pub fn millis(&self) -> (millis: i64)
        requires
            self.valid(),
        ensures
            millis == self.secs * 1000 + self.subsec_nanos as int / 1_000_000,
            0 <= millis <= LAST_MILLISECOND,
    {
        self.secs * 1000 + (self.subsec_nanos / 1_000_000) as i64
    }
}

/// Calls `chrono::Utc::now`, and reads the moment's `DateTime::timestamp` and
/// `DateTime::timestamp_subsec_nanos`. It lies within the calendar and not before
/// 1970; which moment it is rests on the machine. On a machine whose clock stands
/// before 1970 the call panics.
#[verifier::external_body]
pub(crate) fn utc_now() -> (now: Timestamp)
    ensures
        now.valid(),
{
    let now = Utc::now();
    Timestamp { secs: now.timestamp(), subsec_nanos: now.timestamp_subsec_nanos() }
}

/// The whole seconds since the start of 1970, at the clock's moment.
pub fn utc_seconds_now() -> (secs: i64)
    ensures
        0 <= secs <= LAST_SECOND,
{
    utc_now().secs
}

/// How `DateTime::to_rfc3339_opts` writes the moment that lies that many
/// milliseconds after the start of 1970, in UTC and to the millisecond.
pub uninterp spec fn rfc3339_text(millis: i64) -> Seq<char>;

/// Calls `DateTime::from_timestamp_millis` and, on the moment that it gives,
/// `DateTime::to_rfc3339_opts` with three digits after the second and `Z` for
/// UTC. The result depends on the number of milliseconds alone.
#[verifier::external_body]
fn to_rfc3339(millis: i64) -> (written: String)
    requires
        0 <= millis <= LAST_MILLISECOND,
    ensures
        written@ == rfc3339_text(millis),
{
    DateTime::<Utc>::from_timestamp_millis(millis)
        .map(|at| at.to_rfc3339_opts(SecondsFormat::Millis, true))
        .unwrap_or_default()
}

/// The moment in RFC 3339 form, where it lies between the start of 1970 and the
/// end of the calendar.
pub fn timestamp_text(millis: i64) -> (written: Option<String>)
    ensures
        match written {
            Some(t) => 0 <= millis <= LAST_MILLISECOND && t@ == rfc3339_text(millis),
            None => !(0 <= millis <= LAST_MILLISECOND),
        },
{
    if 0 <= millis && millis <= LAST_MILLISECOND {
        Some(to_rfc3339(millis))
    } else {
        None
    }
}

/// The present moment in RFC 3339 form.
pub fn timestamp_now() -> (written: String)
    ensures
        exists|millis: i64|
            0 <= millis <= LAST_MILLISECOND && written@ == #[trigger] rfc3339_text(millis),
{
    to_rfc3339(utc_now().millis())
}

} // verus!
