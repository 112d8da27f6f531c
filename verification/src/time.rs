//! Points in time and the retention window.

use vstd::prelude::*;

verus! {

/// The number of days an event is kept after its last visit.
pub const RETENTION_DAYS: i64 = 90;

/// The retention window in seconds.
pub const RETENTION_SECONDS: i64 = 7_776_000;

/// A point in time: the seconds since the start of 1970 in UTC, leap seconds
/// not counted, and the nanoseconds since that second began.
#[derive(Clone, Copy, Debug, PartialEq, Eq, Structural)]
pub struct Timestamp {
    pub seconds: i64,
    pub nanos: u32,
}

/// Whether `a` is strictly earlier than `b`.
pub open spec fn earlier(a: Timestamp, b: Timestamp) -> bool {
    a.seconds < b.seconds || (a.seconds == b.seconds && a.nanos < b.nanos)
}

/// Whether the retention window can be taken off `now` within 64 bits.
pub open spec fn has_cutoff(now: Timestamp) -> bool {
    now.seconds - RETENTION_SECONDS >= i64::MIN
}

/// The point in time that lies the retention window before `now`.
pub open spec fn cutoff(now: Timestamp) -> Timestamp {
    Timestamp { seconds: (now.seconds - RETENTION_SECONDS) as i64, nanos: now.nanos }
}

/// Whether something last visited at `visited` has outlived the retention
/// window at `now`: its visit is strictly earlier than the cutoff.
pub open spec fn expired(visited: Timestamp, now: Timestamp) -> bool {
    earlier(visited, cutoff(now))
}

impl Timestamp {
    /// Tells whether this point in time is strictly earlier than `other`.
    pub fn is_before(&self, other: &Timestamp) -> (r: bool)
        ensures
            r == earlier(*self, *other),
    {
        self.seconds < other.seconds || (self.seconds == other.seconds && self.nanos
            < other.nanos)
    }
}

/// `chrono::Utc::now`, read through `DateTime::timestamp` and
/// `DateTime::timestamp_subsec_nanos`. The clock's reading is left open; it is
/// made from a count of seconds since 1970 that is not negative.
#[verifier::external_body]
pub(crate) fn current_time() -> (now: Timestamp)
    ensures
        now.seconds >= 0,
{
    let now = chrono::Utc::now();
    Timestamp { seconds: now.timestamp(), nanos: now.timestamp_subsec_nanos() }
}

/// Computes the cutoff of a retention sweep that runs at `now`.
pub fn retention_cutoff(now: Timestamp) -> (before: Timestamp)
    requires
        has_cutoff(now),
    ensures
        before == cutoff(now),
{
    Timestamp { seconds: now.seconds - RETENTION_SECONDS, nanos: now.nanos }
}

/// Tells whether something last visited at `visited` is due for deletion by a
/// sweep that runs at `now`.
pub fn is_expired(visited: Timestamp, now: Timestamp) -> (r: bool)
    requires
        has_cutoff(now),
    ensures
        r == expired(visited, now),
{
    visited.is_before(&retention_cutoff(now))
}

/// The retention window is ninety days of 86 400 seconds, and the cutoff is
/// not itself expired: only strictly older visits are.
pub proof fn lemma_retention_window(now: Timestamp)
    requires
        has_cutoff(now),
    ensures
        RETENTION_SECONDS == RETENTION_DAYS * 86_400,
        cutoff(now).seconds == now.seconds - RETENTION_DAYS * 86_400,
        cutoff(now).nanos == now.nanos,
        !expired(cutoff(now), now),
        !expired(now, now),
{
}

} // verus!
