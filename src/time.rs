//! Timestamps as plain values: seconds since the Unix epoch, with a fixed
//! offset from UTC in which calendar days and weekdays are counted. A time
//! that the library steps forward keeps the offset it started with.
use vstd::arithmetic::div_mod::{lemma_add_mod_noop, lemma_hoist_over_denominator, lemma_mod_multiples_vanish};
use vstd::prelude::*;

verus! {

/// Seconds in one day.
pub const DAY: i64 = 86400;

/// The largest distance from the epoch, in seconds, that a timestamp may lie.
pub const MAX_SECS: i64 = 35184372088832;

/// A whole number of weeks, in seconds, larger than `MAX_SECS + DAY`.
const WEEK_SHIFT: i64 = 35184844800000;

/// `WEEK_SHIFT` in days.
const WEEK_SHIFT_DAYS: i64 = 407232000;

/// An instant, with the fixed offset from UTC in which its local day and
/// weekday are counted.
#[derive(Clone, Copy, Debug, PartialEq, Eq, Structural)]
pub struct Timestamp {
    pub utc_secs: i64,
    pub offset_secs: i32,
}

impl Timestamp {
    /// Within the range that the library computes on, with an offset of
    /// less than one day.
    pub open spec fn wf(&self) -> bool {
        -MAX_SECS <= self.utc_secs <= MAX_SECS && -DAY < self.offset_secs < DAY
    }
}

/// The number of the local calendar day, counted from 1970-01-01.
pub open spec fn local_day(utc: int, offset: int) -> int {
    (utc + offset) / (DAY as int)
}

/// The local weekday, 0 for Sunday through 6 for Saturday.
pub open spec fn weekday_at(utc: int, offset: int) -> int {
    (local_day(utc, offset) + 4) % 7
}

pub open spec fn weekday(t: Timestamp) -> int {
    weekday_at(t.utc_secs as int, t.offset_secs as int)
}

/// One day later is one weekday further.
pub proof fn lemma_weekday_next_day(utc: int, offset: int)
    ensures
        weekday_at(utc + DAY, offset) == (weekday_at(utc, offset) + 1) % 7,
{
    lemma_hoist_over_denominator(utc + offset, 1, DAY as nat);
    assert(local_day(utc + DAY, offset) == local_day(utc, offset) + 1);
    lemma_add_mod_noop(local_day(utc, offset) + 4, 1, 7);
}

/// The local weekday of `t`, 0 for Sunday through 6 for Saturday.
pub fn weekday_of(t: Timestamp) -> (r: u8)
    requires
        t.wf(),
    ensures
        r as int == weekday(t),
        r < 7,
{
    let shifted: i64 = t.utc_secs + t.offset_secs as i64 + WEEK_SHIFT;
    let l: u64 = shifted as u64;
    let d: u64 = l / (DAY as u64);
    proof {
        let x = t.utc_secs + t.offset_secs;
        assert(WEEK_SHIFT_DAYS * DAY == WEEK_SHIFT);
        lemma_hoist_over_denominator(x, WEEK_SHIFT_DAYS as int, DAY as nat);
        assert(d == local_day(t.utc_secs as int, t.offset_secs as int) + WEEK_SHIFT_DAYS);
        assert(WEEK_SHIFT_DAYS == 7 * 58176000);
        lemma_mod_multiples_vanish(58176000, local_day(t.utc_secs as int, t.offset_secs as int) + 4, 7);
    }
    ((d + 4) % 7) as u8
}

/// The instant `k` steps of `unit` seconds after `t`, in seconds.
pub open spec fn later(t: Timestamp, k: int, unit: int) -> int {
    t.utc_secs + k * unit
}

} // verus!
