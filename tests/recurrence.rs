use endless_canvas::recurrence::{
    advance_past, clock_reading, get_next_due, next_due_at, read_clock, LoopFrequency,
};
use endless_canvas::time::{weekday_of, Timestamp};

const DAY: i64 = 86400;
// Monday 2024-01-01 09:00 UTC.
const MONDAY_9: i64 = 1704099600;

fn at(utc_secs: i64) -> Timestamp {
    Timestamp { utc_secs, offset_secs: 0 }
}

#[test]
fn weekday_of_known_dates() {
    assert_eq!(weekday_of(at(0)), 4);
    assert_eq!(weekday_of(at(MONDAY_9)), 1);
    assert_eq!(weekday_of(at(MONDAY_9 + 4 * DAY)), 5);
    assert_eq!(weekday_of(at(-1)), 3);
    // 23:30 UTC on Monday is already Tuesday at UTC+01:00.
    let late = Timestamp { utc_secs: MONDAY_9 + 14 * 3600 + 1800, offset_secs: 3600 };
    assert_eq!(weekday_of(late), 2);
}

#[test]
fn friday_rule_from_last_monday() {
    let due = at(MONDAY_9);
    let now = at(MONDAY_9 + 2 * DAY + 3600);
    let r = advance_past(due, LoopFrequency::Friday, now);
    assert_eq!(r, at(MONDAY_9 + 4 * DAY));
    assert_eq!(weekday_of(r), 5);
}

#[test]
fn friday_rule_keeps_the_local_offset() {
    let due = Timestamp { utc_secs: MONDAY_9 - 3600, offset_secs: 3600 };
    let now = at(MONDAY_9 + 2 * DAY + 3600);
    let r = advance_past(due, LoopFrequency::Friday, now);
    assert_eq!(r, Timestamp { utc_secs: MONDAY_9 - 3600 + 4 * DAY, offset_secs: 3600 });
    assert_eq!(weekday_of(r), 5);
}

#[test]
fn weekday_rule_on_the_same_weekday_moves_a_week() {
    let due = at(MONDAY_9);
    let now = at(MONDAY_9 + 60);
    assert_eq!(advance_past(due, LoopFrequency::Monday, now), at(MONDAY_9 + 7 * DAY));
}

#[test]
fn weekday_rule_skips_weeks_in_the_past() {
    let due = at(MONDAY_9);
    let now = at(MONDAY_9 + 20 * DAY);
    // Now is Sunday 2024-01-21 09:00; the next Wednesday is the 24th.
    assert_eq!(advance_past(due, LoopFrequency::Wednesday, now), at(MONDAY_9 + 23 * DAY));
    assert_eq!(advance_past(due, LoopFrequency::Sunday, now), at(MONDAY_9 + 27 * DAY));
}

#[test]
fn periodic_rules_step_whole_periods() {
    let due = at(MONDAY_9);
    let now = at(MONDAY_9 + 10 * DAY + 5);
    assert_eq!(advance_past(due, LoopFrequency::Daily, now), at(MONDAY_9 + 11 * DAY));
    assert_eq!(advance_past(due, LoopFrequency::Weekly, now), at(MONDAY_9 + 14 * DAY));
    assert_eq!(advance_past(due, LoopFrequency::Monthly, now), at(MONDAY_9 + 30 * DAY));
    assert_eq!(advance_past(due, LoopFrequency::Yearly, now), at(MONDAY_9 + 365 * DAY));
}

#[test]
fn due_equal_to_now_still_moves() {
    let due = at(MONDAY_9);
    assert_eq!(advance_past(due, LoopFrequency::Daily, due), at(MONDAY_9 + DAY));
}

#[test]
fn monthly_rule_several_periods_back() {
    let due = at(MONDAY_9);
    let now = at(MONDAY_9 + 95 * DAY);
    assert_eq!(advance_past(due, LoopFrequency::Monthly, now), at(MONDAY_9 + 120 * DAY));
}

#[test]
fn future_due_is_kept_for_every_rule() {
    let due = at(MONDAY_9 + DAY);
    let now = at(MONDAY_9);
    for rule in LoopFrequency::all() {
        assert_eq!(advance_past(due, rule, now), due);
    }
}

#[test]
fn past_results_lie_after_now() {
    let due = at(MONDAY_9);
    let now = at(MONDAY_9 + 3 * DAY + 17);
    for rule in LoopFrequency::all() {
        let r = advance_past(due, rule, now);
        if rule == LoopFrequency::Once {
            assert_eq!(r, due);
        } else {
            assert!(r.utc_secs > now.utc_secs);
            assert_eq!(advance_past(r, rule, now), r);
        }
    }
}

#[test]
fn rule_list_and_default() {
    let all = LoopFrequency::all();
    assert_eq!(all.len(), 12);
    assert_eq!(all[0], LoopFrequency::Once);
    assert_eq!(all[11], LoopFrequency::Saturday);
    assert_eq!(LoopFrequency::default(), LoopFrequency::Once);
    assert_eq!(LoopFrequency::Monthly.period_days(), 30);
    assert_eq!(LoopFrequency::Friday.target_weekday(), Some(5));
    assert_eq!(LoopFrequency::Daily.target_weekday(), None);
}

#[test]
fn next_due_against_the_clock() {
    let now = read_clock().expect("the system clock reads after the epoch");
    assert!(now.utc_secs > 1_700_000_000);
    assert_eq!(now.offset_secs, 0);
    let due = Timestamp { utc_secs: now.utc_secs - 3 * DAY, offset_secs: now.offset_secs };
    assert_eq!(get_next_due(due, LoopFrequency::Once), due);
    let r = get_next_due(due, LoopFrequency::Daily);
    assert!(r.utc_secs > now.utc_secs);
    assert!(r.utc_secs <= now.utc_secs + 2 * DAY);
    assert_eq!((r.utc_secs - due.utc_secs) % DAY, 0);
    let ahead = Timestamp { utc_secs: now.utc_secs + 3600, offset_secs: now.offset_secs };
    assert_eq!(get_next_due(ahead, LoopFrequency::Weekly), ahead);
}

#[test]
fn next_due_at_a_reading() {
    let due = at(MONDAY_9);
    let now = at(MONDAY_9 + 2 * DAY + 3600);
    assert_eq!(next_due_at(due, LoopFrequency::Friday, now), at(MONDAY_9 + 4 * DAY));
    assert_eq!(next_due_at(due, LoopFrequency::Daily, now), at(MONDAY_9 + 3 * DAY));
    assert_eq!(next_due_at(due, LoopFrequency::Once, now), due);
    let beyond = at(i64::MAX - 10);
    assert_eq!(next_due_at(due, LoopFrequency::Daily, beyond), due);
}

#[test]
fn clock_readings_in_and_out_of_range() {
    assert_eq!(clock_reading(MONDAY_9 as u64), Some(at(MONDAY_9)));
    assert_eq!(clock_reading(0), Some(at(0)));
    assert_eq!(clock_reading(u64::MAX), None);
    assert_eq!(clock_reading(i64::MAX as u64), None);
}
