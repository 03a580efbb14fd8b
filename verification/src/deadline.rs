//! Deadlines on a monotonic clock.
//!
//! A point in time is the number of nanoseconds that the clock has counted
//! since some fixed start, and a span of time is a number of nanoseconds. An
//! operation with a timeout fixes its deadline once, when it begins. Each
//! wait that it then asks for is given the time left until that deadline, so
//! that however often the operation has to wait again, it never runs past
//! the deadline.

use crate::store::Timespec;
use vstd::prelude::*;

verus! {

/// The nanoseconds in a second.
pub const NANOS_PER_SEC: u128 = 1_000_000_000;

/// The deadline of an operation that begins at `now` with `timeout`: `now`
/// plus the timeout, or the last point in time that can be written where
/// that lies beyond it; none without a timeout.
pub open spec fn deadline_after(now: u128, timeout: Option<u128>) -> Option<u128> {
    match timeout {
        None => None,
        Some(span) => Some(
            if now + span > u128::MAX {
                u128::MAX
            } else {
                (now + span) as u128
            },
        ),
    }
}

/// The time from `now` until `until`; nothing once `until` has passed.
pub open spec fn time_left(until: u128, now: u128) -> u128 {
    if until > now {
        (until - now) as u128
    } else {
        0
    }
}

/// The span `nanos` in seconds and nanoseconds. A span of more seconds than
/// the seconds' field can hold is cut to the most that it holds.
pub open spec fn timespec_of(nanos: u128) -> Timespec {
    Timespec {
        tv_sec: if nanos / NANOS_PER_SEC > i64::MAX {
            i64::MAX
        } else {
            (nanos / NANOS_PER_SEC) as i64
        },
        tv_nsec: (nanos % NANOS_PER_SEC) as i64,
    }
}

/// The timeout to hand to a wait that begins at `now` in an operation whose
/// deadline is `until`.
pub open spec fn remaining(until: Option<u128>, now: u128) -> Option<Timespec> {
    match until {
        None => None,
        Some(end) => Some(timespec_of(time_left(end, now))),
    }
}

/// Fixes the deadline of an operation that begins at `now`.
pub fn deadline(timeout: Option<u128>, now: u128) -> (until: Option<u128>)
    ensures
        until == deadline_after(now, timeout),
{
    match timeout {
        None => None,
        Some(span) => Some(now.saturating_add(span)),
    }
}

/// Converts a span of nanoseconds to the store's `Timespec`.
pub fn duration_to_timespec(nanos: u128) -> (ts: Timespec)
    ensures
        ts == timespec_of(nanos),
        0 <= ts.tv_sec,
        0 <= ts.tv_nsec < NANOS_PER_SEC,
{
    let secs: u128 = nanos / NANOS_PER_SEC;
    let rest: u128 = nanos % NANOS_PER_SEC;
    let tv_sec: i64 = if secs > 0x7fff_ffff_ffff_ffff {
        i64::MAX
    } else {
        secs as i64
    };
    Timespec { tv_sec, tv_nsec: rest as i64 }
}

/// Returns the time remaining until the given deadline.
///
/// Returns `None` if there is no deadline, or a span of zero if `until` has
/// passed.
pub fn remaining_time_until(until: Option<u128>, now: u128) -> (left: Option<Timespec>)
    ensures
        left == remaining(until, now),
{
    match until {
        None => None,
        Some(end) => {
            let span: u128 = if end > now {
                end - now
            } else {
                0
            };
            Some(duration_to_timespec(span))
        },
    }
}

/// A wait never runs past the deadline: one that begins at `now`, in an
/// operation that began at `start` with the timeout `span`, and that takes
/// all the time it was given, ends at the deadline where `now` is before it,
/// and at once where it is not. The time that an operation spends waiting is
/// so at most `span`, however often it waits.
pub proof fn lemma_wait_ends_by_deadline(start: u128, span: u128, now: u128)
    requires
        start <= now,
        start + span <= u128::MAX,
    ensures
        deadline_after(start, Some(span)) == Some((start + span) as u128),
        now + time_left((start + span) as u128, now) == if now < start + span {
            start + span
        } else {
            now as int
        },
        time_left((start + span) as u128, now) <= span,
        time_left((start + span) as u128, start) == span,
{
}

/// A `Timespec` holds the span it was made from, to the nanosecond, as long
/// as the seconds fit.
pub proof fn lemma_timespec_exact(nanos: u128)
    requires
        nanos / NANOS_PER_SEC <= i64::MAX,
    ensures
        timespec_of(nanos).tv_sec * NANOS_PER_SEC + timespec_of(nanos).tv_nsec == nanos,
{
    assert(nanos == NANOS_PER_SEC * (nanos / NANOS_PER_SEC) + nanos % NANOS_PER_SEC) by {
        vstd::arithmetic::div_mod::lemma_fundamental_div_mod(nanos as int, NANOS_PER_SEC as int);
    }
    assert((nanos / NANOS_PER_SEC) * NANOS_PER_SEC == NANOS_PER_SEC * (nanos / NANOS_PER_SEC))
        by (nonlinear_arith);
}

} // verus!
