//! Clock arithmetic for deadline-based countdowns, and the wall-clock
//! timestamps that mark when a timer was created or finished.
//!
//! Remaining time is always computed from an absolute deadline (`target`)
//! and a current monotonic reading (`now`), both in signed milliseconds:
//! `remaining_at(target, now)` is `target - now` clamped below by zero and
//! above by what an `i64` can hold. Deadlines themselves are formed by a
//! saturating addition, mirroring how a countdown of `r` milliseconds begun
//! at time `now` targets the instant `now + r`.

use vstd::prelude::*;

verus! {

/// `a + b` clamped to the range of `i64`.
pub open spec fn sat_add(a: int, b: int) -> int {
    if a + b > i64::MAX as int {
        i64::MAX as int
    } else if a + b < i64::MIN as int {
        i64::MIN as int
    } else {
        a + b
    }
}

/// Milliseconds left until the deadline `target` as seen at time `now`:
/// never negative, clamped above to the range of `i64`.
pub open spec fn remaining_at(target: int, now: int) -> int {
    if target <= now {
        0
    } else if target - now > i64::MAX as int {
        i64::MAX as int
    } else {
        target - now
    }
}

/// Saturating addition on `i64`, exact with respect to `sat_add`.
pub fn sat_add_i64(a: i64, b: i64) -> (r: i64)
    ensures
        r as int == sat_add(a as int, b as int),
{
    if b >= 0 {
        if a > i64::MAX - b {
            i64::MAX
        } else {
            a + b
        }
    } else {
        if a < i64::MIN - b {
            i64::MIN
        } else {
            a + b
        }
    }
}

/// Milliseconds left until `target` as seen at `now`, exact with respect
/// to `remaining_at`.
pub fn remaining_ms_at(target: i64, now: i64) -> (r: i64)
    ensures
        r as int == remaining_at(target as int, now as int),
        r >= 0,
{
    if target <= now {
        0
    } else if now < 0 && target > i64::MAX + now {
        i64::MAX
    } else {
        target - now
    }
}

/// While a deadline stands fixed, the remaining time it yields never
/// increases as the clock advances.
pub proof fn lemma_remaining_monotonic(target: i64, now1: i64, now2: i64)
    requires
        now1 <= now2,
    ensures
        remaining_at(target as int, now2 as int) <= remaining_at(target as int, now1 as int),
{
}

/// A countdown begun at `start_now` with no time left (`rem <= 0`) has a
/// deadline that is already due: every reading of the clock taken at or
/// after the start sees zero remaining.
pub proof fn lemma_nonpositive_remaining_is_due(rem: i64, start_now: i64, later: i64)
    requires
        rem <= 0,
        start_now <= later,
    ensures
        remaining_at(sat_add(start_now as int, rem as int), later as int) == 0,
{
}

/// The current wall-clock time as an RFC 3339 timestamp string.
///
/// Relies on chrono::Utc::now, which reads the system clock (nothing is
/// promised of the instant it returns; it panics only if the system clock
/// reads before the Unix epoch), and on chrono::DateTime::to_rfc3339, which
/// formats the instant as an RFC 3339 date-and-time string — that string
/// always carries at least the date, so it is never empty.
#[verifier::external_body]
pub fn now_stamp() -> (r: String)
    ensures
        r@.len() > 0,
{
    chrono::Utc::now().to_rfc3339()
}

} // verus!
