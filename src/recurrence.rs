//! Recurrence rules and the step that moves a due time past the present.
use crate::time::{later, lemma_weekday_next_day, weekday_at, weekday_of, Timestamp, DAY, MAX_SECS};
use vstd::prelude::*;

verus! {

/// How a to-do item recurs once it has fallen due.
#[derive(Clone, Copy, Debug, PartialEq, Eq, Structural)]
pub enum LoopFrequency {
    Once,
    Daily,
    Weekly,
    Monthly,
    Yearly,
    Sunday,
    Monday,
    Tuesday,
    Wednesday,
    Thursday,
    Friday,
    Saturday,
}

impl Default for LoopFrequency {
    fn default() -> (r: Self)
        ensures
            r == LoopFrequency::Once,
    {
        LoopFrequency::Once
    }
}

/// The fixed period, in days, of a periodic rule; 0 for the others.
pub open spec fn period_days(rule: LoopFrequency) -> int {
    match rule {
        LoopFrequency::Daily => 1,
        LoopFrequency::Weekly => 7,
        LoopFrequency::Monthly => 30,
        LoopFrequency::Yearly => 365,
        _ => 0,
    }
}

/// The weekday (0 for Sunday) that a weekday rule aims at.
pub open spec fn target_weekday(rule: LoopFrequency) -> Option<int> {
    match rule {
        LoopFrequency::Sunday => Some(0),
        LoopFrequency::Monday => Some(1),
        LoopFrequency::Tuesday => Some(2),
        LoopFrequency::Wednesday => Some(3),
        LoopFrequency::Thursday => Some(4),
        LoopFrequency::Friday => Some(5),
        LoopFrequency::Saturday => Some(6),
        _ => None,
    }
}

impl LoopFrequency {
    /// Every rule, in the order in which a user picks among them.
    pub fn all() -> (r: Vec<LoopFrequency>)
        ensures
            r@ == seq![
                LoopFrequency::Once,
                LoopFrequency::Daily,
                LoopFrequency::Weekly,
                LoopFrequency::Monthly,
                LoopFrequency::Yearly,
                LoopFrequency::Sunday,
                LoopFrequency::Monday,
                LoopFrequency::Tuesday,
                LoopFrequency::Wednesday,
                LoopFrequency::Thursday,
                LoopFrequency::Friday,
                LoopFrequency::Saturday,
            ],
    {
        vec![
            LoopFrequency::Once,
            LoopFrequency::Daily,
            LoopFrequency::Weekly,
            LoopFrequency::Monthly,
            LoopFrequency::Yearly,
            LoopFrequency::Sunday,
            LoopFrequency::Monday,
            LoopFrequency::Tuesday,
            LoopFrequency::Wednesday,
            LoopFrequency::Thursday,
            LoopFrequency::Friday,
            LoopFrequency::Saturday,
        ]
    }

    pub fn period_days(&self) -> (r: i64)
        ensures
            r == period_days(*self),
    {
        match self {
            LoopFrequency::Daily => 1,
            LoopFrequency::Weekly => 7,
            LoopFrequency::Monthly => 30,
            LoopFrequency::Yearly => 365,
            _ => 0,
        }
    }

    pub fn target_weekday(&self) -> (r: Option<u8>)
        ensures
            match r {
                Some(w) => target_weekday(*self) == Some(w as int),
                None => target_weekday(*self) is None,
            },
    {
        match self {
            LoopFrequency::Sunday => Some(0),
            LoopFrequency::Monday => Some(1),
            LoopFrequency::Tuesday => Some(2),
            LoopFrequency::Wednesday => Some(3),
            LoopFrequency::Thursday => Some(4),
            LoopFrequency::Friday => Some(5),
            LoopFrequency::Saturday => Some(6),
            _ => None,
        }
    }
}

/// `r` is the occurrence of `rule` that follows `due` once `now` has come:
/// `due` itself when it is still ahead or the rule does not recur; for a
/// periodic rule the one step of whole periods after `due` that lands in
/// `(now, now + period]`; for a weekday rule the first day after `due`, at
/// the same time of day, that lies after `now` and falls on that weekday.
/// Days and weekdays are counted in the fixed offset stored with `due`,
/// which `r` keeps: a change of the zone's offset in between, such as
/// daylight saving, is not followed.
pub open spec fn is_next_occurrence(due: Timestamp, rule: LoopFrequency, now: Timestamp, r: Timestamp) -> bool {
    if rule == LoopFrequency::Once || due.utc_secs > now.utc_secs {
        r == due
    } else if let Some(w) = target_weekday(rule) {
        r.offset_secs == due.offset_secs && exists|k: int|
            k >= 1 && r.utc_secs == #[trigger] later(due, k, DAY as int) && r.utc_secs > now.utc_secs
                && weekday_at(r.utc_secs as int, due.offset_secs as int) == w
                && forall|j: int|
                1 <= j < k ==> !(due.utc_secs + j * DAY > now.utc_secs && #[trigger] weekday_at(
                    due.utc_secs + j * DAY,
                    due.offset_secs as int,
                ) == w)
    } else {
        let p = period_days(rule) * DAY;
        r.offset_secs == due.offset_secs && exists|k: int|
            k >= 1 && r.utc_secs == #[trigger] later(due, k, p) && r.utc_secs > now.utc_secs
                && r.utc_secs - p <= now.utc_secs
    }
}

/// A clock reading far enough inside the range that a year can be added.
pub open spec fn is_clock_reading(now: Timestamp) -> bool {
    now.wf() && now.utc_secs <= MAX_SECS - 366 * DAY
}

/// Moves `due` forward by the step of `rule` until it lies after `now`.
pub fn advance_past(due: Timestamp, rule: LoopFrequency, now: Timestamp) -> (r: Timestamp)
    requires
        due.wf(),
        is_clock_reading(now),
    ensures
        r.wf(),
        is_next_occurrence(due, rule, now, r),
        due.utc_secs > now.utc_secs ==> r == due,
        rule != LoopFrequency::Once && due.utc_secs <= now.utc_secs ==> r.utc_secs > now.utc_secs,
{
    if rule == LoopFrequency::Once || due.utc_secs > now.utc_secs {
        return due;
    }
    match rule.target_weekday() {
        Some(w) => advance_to_weekday(due, w, now),
        None => advance_by_period(due, rule, now),
    }
}

fn advance_by_period(due: Timestamp, rule: LoopFrequency, now: Timestamp) -> (r: Timestamp)
    requires
        due.wf(),
        is_clock_reading(now),
        due.utc_secs <= now.utc_secs,
        period_days(rule) > 0,
    ensures
        r.wf(),
        is_next_occurrence(due, rule, now, r),
        r.utc_secs > now.utc_secs,
{
    let p: i64 = rule.period_days() * DAY;
    let mut next: i64 = due.utc_secs;
    let ghost mut k: int = 0;
    while next <= now.utc_secs
        invariant
            p == period_days(rule) * DAY,
            DAY <= p <= 365 * DAY,
            k >= 0,
            next == due.utc_secs + k * p,
            k == 0 ==> next == due.utc_secs,
            k >= 1 ==> next - p <= now.utc_secs,
            next <= now.utc_secs + p,
            due.wf(),
            is_clock_reading(now),
            due.utc_secs <= now.utc_secs,
        decreases now.utc_secs + p - next,
    {
        proof {
            assert((k + 1) * p == k * p + p) by (nonlinear_arith);
        }
        next = next + p;
        proof {
            k = k + 1;
        }
    }
    let r = Timestamp { utc_secs: next, offset_secs: due.offset_secs };
    assert(r.utc_secs == later(due, k, p as int) && k >= 1);
    r
}

/// Steps whole days from `due`, counting weekdays in its fixed offset.
fn advance_to_weekday(due: Timestamp, w: u8, now: Timestamp) -> (r: Timestamp)
    requires
        due.wf(),
        is_clock_reading(now),
        due.utc_secs <= now.utc_secs,
        w < 7,
    ensures
        r.wf(),
        r.offset_secs == due.offset_secs,
        r.utc_secs > now.utc_secs,
        exists|k: int|
            k >= 1 && r.utc_secs == #[trigger] later(due, k, DAY as int) && r.utc_secs > now.utc_secs
                && weekday_at(r.utc_secs as int, due.offset_secs as int) == w
                && forall|j: int|
                1 <= j < k ==> !(due.utc_secs + j * DAY > now.utc_secs && #[trigger] weekday_at(
                    due.utc_secs + j * DAY,
                    due.offset_secs as int,
                ) == w as int),
{
    let ghost off = due.offset_secs as int;
    let mut wd: u8 = weekday_of(due);
    let mut next: i64 = due.utc_secs;
    let ghost mut k: int = 0;
    // First step whole days until the time lies after `now`.
    while next <= now.utc_secs
        invariant
            k >= 0,
            next == due.utc_secs + k * DAY,
            k == 0 ==> next == due.utc_secs,
            next <= now.utc_secs + DAY,
            wd < 7,
            wd as int == weekday_at(next as int, off),
            due.wf(),
            off == due.offset_secs,
            is_clock_reading(now),
            due.utc_secs <= now.utc_secs,
        decreases now.utc_secs + DAY - next,
    {
        proof {
            lemma_weekday_next_day(next as int, off);
        }
        next = next + DAY;
        wd = (wd + 1) % 7;
        proof {
            k = k + 1;
        }
    }
    assert forall|j: int|
        1 <= j < k implies !(due.utc_secs + j * DAY > now.utc_secs && #[trigger] weekday_at(
            due.utc_secs + j * DAY,
            off,
        ) == w as int) by {}
    // Then step on until the weekday matches.
    while wd != w
        invariant
            k >= 1,
            next == due.utc_secs + k * DAY,
            next > now.utc_secs,
            wd < 7,
            w < 7,
            wd as int == weekday_at(next as int, off),
            next <= now.utc_secs + DAY + DAY * (6 - (w + 7 - wd) % 7),
            forall|j: int|
                1 <= j < k ==> !(due.utc_secs + j * DAY > now.utc_secs && #[trigger] weekday_at(
                    due.utc_secs + j * DAY,
                    off,
                ) == w as int),
            due.wf(),
            off == due.offset_secs,
            is_clock_reading(now),
        decreases (w + 7 - wd) % 7,
    {
        proof {
            lemma_weekday_next_day(next as int, off);
        }
        next = next + DAY;
        wd = (wd + 1) % 7;
        proof {
            k = k + 1;
        }
    }
    assert(next == later(due, k, DAY as int));
    Timestamp { utc_secs: next, offset_secs: due.offset_secs }
}

/// Relies on std's `SystemTime::duration_since` from `UNIX_EPOCH`, which
/// returns an error, rather than panicking, when the system clock reads
/// before the epoch: whole seconds since the epoch, if any.
#[verifier::external_body]
fn epoch_secs() -> (r: Option<u64>) {
    std::time::SystemTime::now().duration_since(std::time::UNIX_EPOCH).ok().map(|d| d.as_secs())
}

/// The clock reading for `secs` whole seconds after the epoch, taken in
/// UTC, when it lies in the range that the library computes on. Only the
/// instant of a reading counts: recurrence keeps the due time's offset.
pub fn clock_reading(secs: u64) -> (r: Option<Timestamp>)
    ensures
        r == (if secs <= (MAX_SECS - 366 * DAY) as u64 {
            Some(Timestamp { utc_secs: secs as i64, offset_secs: 0 })
        } else {
            None
        }),
        r matches Some(t) ==> is_clock_reading(t),
{
    if secs <= (MAX_SECS - 366 * DAY) as u64 {
        Some(Timestamp { utc_secs: secs as i64, offset_secs: 0 })
    } else {
        None
    }
}

/// The current time, as a reading in UTC; `None` when the system clock
/// reads before the epoch or beyond the range of the library.
pub fn read_clock() -> (r: Option<Timestamp>)
    ensures
        r matches Some(t) ==> is_clock_reading(t) && t.utc_secs >= 0 && t.offset_secs == 0,
{
    match epoch_secs() {
        Some(secs) => clock_reading(secs),
        None => None,
    }
}

/// The occurrence of `freq` that follows `current_due` as of the clock
/// reading `reading`; `current_due` itself when the reading lies outside
/// the range of the library.
pub fn next_due_at(current_due: Timestamp, freq: LoopFrequency, reading: Timestamp) -> (r: Timestamp)
    requires
        current_due.wf(),
        -DAY < reading.offset_secs < DAY,
    ensures
        r.wf(),
        if is_clock_reading(reading) {
            is_next_occurrence(current_due, freq, reading, r)
        } else {
            r == current_due
        },
{
    if -MAX_SECS <= reading.utc_secs && reading.utc_secs <= MAX_SECS - 366 * DAY {
        advance_past(current_due, freq, reading)
    } else {
        current_due
    }
}

/// The occurrence of `freq` that follows `current_due` as of the current
/// time: `current_due` itself when it is still ahead, when the rule does
/// not recur, or when the clock gives no reading.
pub fn get_next_due(current_due: Timestamp, freq: LoopFrequency) -> (r: Timestamp)
    requires
        current_due.wf(),
    ensures
        r.wf(),
        freq == LoopFrequency::Once ==> r == current_due,
        r == current_due || exists|now: Timestamp|
            is_clock_reading(now) && now.utc_secs >= 0 && #[trigger] is_next_occurrence(
                current_due,
                freq,
                now,
                r,
            ),
{
    match read_clock() {
        Some(now) => {
            let r = next_due_at(current_due, freq, now);
            assert(is_next_occurrence(current_due, freq, now, r));
            r
        },
        None => current_due,
    }
}

} // verus!
