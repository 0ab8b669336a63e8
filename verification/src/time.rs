//! The window of time that a request for today's plan covers.

use crate::models::{Period, Timestamp};
use vstd::prelude::*;

verus! {

/// Seconds in a day of the UTC time line.
pub const SECONDS_PER_DAY: i64 = 86_400;

/// Where the time zone of the machine places a wall-clock time on the UTC
/// time line, in seconds since the Unix epoch.
#[derive(Debug, Clone, Copy, PartialEq, Eq, Structural)]
pub enum LocalInstant {
    /// The wall-clock time occurs once.
    Single(i64),
    /// The wall-clock time occurs twice, because clocks were set back: the
    /// earlier and the later instant.
    Ambiguous(i64, i64),
    /// The wall-clock time does not occur, because clocks were set forward,
    /// or the time zone could not place it.
    Missing,
}

/// Reads the machine's clock with `std::time::SystemTime::now`, converts the
/// reading with chrono's `From<SystemTime>` for `DateTime<Utc>` and takes its
/// `DateTime::timestamp`: the seconds from the Unix epoch to the reading,
/// negative for a clock that reads before 1970. Nothing is claimed of the
/// value.
#[verifier::external_body]
fn utc_now_seconds() -> i64 {
    chrono::DateTime::<chrono::Utc>::from(std::time::SystemTime::now()).timestamp()
}

/// Calls `NaiveDateTime::and_local_timezone` with `chrono::Local` on the
/// wall-clock time that lies `wall_seconds` after 1970-01-01 00:00:00, and
/// reports each instant it finds as seconds since the Unix epoch. The answer
/// depends on the time zone of the machine, so nothing is claimed of it.
#[verifier::external_body]
fn resolve_local(wall_seconds: i64) -> LocalInstant {
    match chrono::DateTime::from_timestamp(wall_seconds, 0) {
        Some(wall) => match wall.naive_utc().and_local_timezone(chrono::Local) {
            chrono::LocalResult::Single(at) => LocalInstant::Single(
                at.with_timezone(&chrono::Utc).timestamp(),
            ),
            chrono::LocalResult::Ambiguous(first, last) => LocalInstant::Ambiguous(
                first.with_timezone(&chrono::Utc).timestamp(),
                last.with_timezone(&chrono::Utc).timestamp(),
            ),
            chrono::LocalResult::None => LocalInstant::Missing,
        },
        None => LocalInstant::Missing,
    }
}

/// The last midnight of the UTC calendar at or before `seconds`.
pub open spec fn day_floor(seconds: int) -> int {
    seconds - seconds % (SECONDS_PER_DAY as int)
}

/// The last midnight of the UTC calendar at or before `seconds`, unless it
/// lies before the earliest instant that 64 bits can count.
pub fn start_of_day(seconds: i64) -> (r: Option<i64>)
    ensures
        r == if day_floor(seconds as int) >= i64::MIN {
            Some(day_floor(seconds as int) as i64)
        } else {
            None
        },
{
    let past: i64 = seconds % SECONDS_PER_DAY;
    let past: i64 = if past < 0 {
        past + SECONDS_PER_DAY
    } else {
        past
    };
    seconds.checked_sub(past)
}

/// The period of one day that begins at the instant `start_seconds`.
pub open spec fn day_from(start_seconds: i64) -> Period {
    Period {
        start: Timestamp { secs: start_seconds, nanos: 0 },
        end: Timestamp { secs: (start_seconds + SECONDS_PER_DAY) as i64, nanos: 0 },
    }
}

/// The period begins on a whole second and ends exactly one day later.
pub open spec fn spans_one_day(window: Period) -> bool {
    &&& window.start.nanos == 0
    &&& window.end.nanos == 0
    &&& window.end.secs == window.start.secs + SECONDS_PER_DAY
}

/// The period of one day that begins at `start`. There is one only where
/// `start` is a single instant and the day ends within what 64 bits can count.
pub fn day_window(start: LocalInstant) -> (r: Option<Period>)
    ensures
        r == match start {
            LocalInstant::Single(at) if at + SECONDS_PER_DAY <= i64::MAX => Some(day_from(at)),
            _ => None,
        },
        r matches Some(window) ==> window.well_formed() && spans_one_day(window),
{
    match start {
        LocalInstant::Single(at) => match at.checked_add(SECONDS_PER_DAY) {
            Some(end) => Some(
                Period {
                    start: Timestamp { secs: at, nanos: 0 },
                    end: Timestamp { secs: end, nanos: 0 },
                },
            ),
            None => None,
        },
        _ => None,
    }
}

/// The period that a request for today's plan covers: one day from the local
/// midnight of the current UTC date. There is none where that midnight does
/// not occur or occurs twice in the time zone of the machine.
pub fn today_window() -> (r: Option<Period>)
    ensures
        r matches Some(window) ==> window.well_formed() && spans_one_day(window),
{
    let now = utc_now_seconds();
    match start_of_day(now) {
        Some(midnight) => day_window(resolve_local(midnight)),
        None => None,
    }
}

} // verus!
