//! Points in time as plain values, and the reading of deadlines typed as
//! local wall-clock time.

use chrono::{DateTime, Local, LocalResult, NaiveDateTime, Offset, TimeZone};
use vstd::prelude::*;

verus! {

/// An instant, together with the UTC offset of the zone it was observed in.
#[derive(Clone, Copy, Debug, PartialEq, Eq, Structural)]
pub struct Timestamp {
    /// Whole seconds since 1970-01-01 00:00:00 UTC.
    pub secs: i64,
    /// Nanoseconds past `secs` (above 999,999,999 only inside a leap second).
    pub nanos: u32,
    /// Seconds that local time is ahead of UTC.
    pub offset: i32,
}

impl Timestamp {
    /// The wall-clock reading in the timestamp's own zone, in seconds since
    /// 1970-01-01 00:00:00 of that zone's clock.
    pub open spec fn local_secs(self) -> int {
        self.secs + self.offset
    }

    /// The wall-clock reading of this instant in its own zone, where it fits
    /// in an `i64`.
    pub fn wall_clock_secs(&self) -> (r: Option<i64>)
        ensures
            r == (if i64::MIN <= self.local_secs() <= i64::MAX {
                Some(self.local_secs() as i64)
            } else {
                None
            }),
    {
        self.secs.checked_add(self.offset as i64)
    }
}

/// How a local wall-clock reading maps onto instants in the machine's zone.
#[derive(Clone, Copy, Debug, PartialEq, Eq, Structural)]
pub enum LocalResolution {
    /// Exactly one instant shows this reading.
    Single(Timestamp),
    /// The clock was turned back: two instants show this reading.
    Ambiguous,
    /// The clock was turned forward over this reading, or the zone could
    /// not be consulted.
    Nonexistent,
}

/// Why a deadline text was not accepted.
#[derive(Clone, Copy, Debug, PartialEq, Eq, Structural)]
pub enum DeadlineError {
    /// The text is not a valid date and time of the form `YYYY-MM-DD HH:MM`.
    Format,
    /// The reading falls in a fold of local time and names two instants.
    AmbiguousLocal,
    /// The reading falls in a gap of local time and names no instant.
    NonexistentLocal,
}

/// The pattern that deadline texts follow, in chrono's strftime notation.
pub open spec fn deadline_pattern() -> Seq<char> {
    "%Y-%m-%d %H:%M"@
}

/// What chrono's `NaiveDateTime::parse_from_str(s, pattern)` reads from `s`,
/// as seconds of a clock that starts at 1970-01-01 00:00:00, or `None` where
/// it refuses the text.
pub uninterp spec fn wall_clock_of(s: Seq<char>, pattern: Seq<char>) -> Option<i64>;

/// Relies on chrono's `NaiveDateTime::parse_from_str`, whose result depends on
/// the text and the pattern alone, and on `NaiveDateTime::and_utc` followed by
/// `DateTime::timestamp` to count the reading in seconds.
#[verifier::external_body]
fn parse_wall_clock(s: &str, pattern: &str) -> (r: Option<i64>)
    ensures
        r == wall_clock_of(s@, pattern@),
{
    match NaiveDateTime::parse_from_str(s, pattern) {
        Ok(n) => Some(n.and_utc().timestamp()),
        Err(_) => None,
    }
}

/// Relies on chrono's `Local::from_local_datetime`: where it finds a single
/// instant, that instant taken with its offset shows exactly the reading
/// handed in (the instant is the reading minus the offset). The answer
/// depends on the machine's zone, so nothing more is said of it.
#[verifier::external_body]
fn resolve_local(wall: i64) -> (r: LocalResolution)
    ensures
        r matches LocalResolution::Single(t) ==> t.local_secs() == wall && t.nanos == 0,
{
    let naive = match DateTime::from_timestamp(wall, 0) {
        Some(u) => u.naive_utc(),
        None => return LocalResolution::Nonexistent,
    };
    match Local.from_local_datetime(&naive) {
        LocalResult::Single(t) => LocalResolution::Single(Timestamp {
            secs: t.timestamp(),
            nanos: t.timestamp_subsec_nanos(),
            offset: t.offset().fix().local_minus_utc(),
        }),
        LocalResult::Ambiguous(_, _) => LocalResolution::Ambiguous,
        LocalResult::None => LocalResolution::Nonexistent,
    }
}

/// Relies on chrono's `Local::now`: the current instant with the machine's
/// offset. Nothing is promised of the value.
#[verifier::external_body]
pub(crate) fn now() -> (r: Timestamp) {
    let t = Local::now();
    Timestamp {
        secs: t.timestamp(),
        nanos: t.timestamp_subsec_nanos(),
        offset: t.offset().fix().local_minus_utc(),
    }
}

/// The deadline that a resolved local reading gives: its single instant, or
/// the error that says why there is none.
pub fn deadline_from_resolution(res: LocalResolution) -> (r: Result<Timestamp, DeadlineError>)
    ensures
        match res {
            LocalResolution::Single(t) => r == Ok::<Timestamp, DeadlineError>(t),
            LocalResolution::Ambiguous => r == Err::<Timestamp, DeadlineError>(
                DeadlineError::AmbiguousLocal,
            ),
            LocalResolution::Nonexistent => r == Err::<Timestamp, DeadlineError>(
                DeadlineError::NonexistentLocal,
            ),
        },
{
    match res {
        LocalResolution::Single(t) => Ok(t),
        LocalResolution::Ambiguous => Err(DeadlineError::AmbiguousLocal),
        LocalResolution::Nonexistent => Err(DeadlineError::NonexistentLocal),
    }
}

/// Reads `input` as a local date and time of the form `YYYY-MM-DD HH:MM`.
/// A text that does not follow the form gives `Format`; a reading that the
/// machine's zone skips or repeats gives the matching local-time error; else
/// the instant whose local clock shows that reading, to the second.
pub fn parse_deadline(input: &str) -> (r: Result<Timestamp, DeadlineError>)
    ensures
        (r == Err::<Timestamp, DeadlineError>(DeadlineError::Format)) <==> wall_clock_of(
            input@,
            deadline_pattern(),
        ) is None,
        r matches Ok(t) ==> wall_clock_of(input@, deadline_pattern()) == Some(
            t.local_secs() as i64,
        ) && t.nanos == 0,
{
    let pattern = "%Y-%m-%d %H:%M";
    proof {
        reveal_strlit("%Y-%m-%d %H:%M");
    }
    match parse_wall_clock(input, pattern) {
        None => Err(DeadlineError::Format),
        Some(wall) => deadline_from_resolution(resolve_local(wall)),
    }
}

} // verus!
