use endless_canvas::canvas::{CanvasState, Place};
use endless_canvas::recurrence::LoopFrequency;
use endless_canvas::time::Timestamp;

const DAY: i64 = 86400;
const MONDAY_9: i64 = 1704099600;

type Frame = (i32, i32);

fn at(utc_secs: i64) -> Timestamp {
    Timestamp { utc_secs, offset_secs: 0 }
}

#[test]
fn ids_come_from_one_counter() {
    let mut s: CanvasState<Frame> = CanvasState::new();
    assert_eq!(s.add_note((1, 2)), 0);
    assert_eq!(s.add_todo((3, 4)), 1);
    assert_eq!(s.add_note((5, 6)), 2);
    assert_eq!(s.next_id, 3);
    assert_eq!(s.notes.len(), 2);
    assert_eq!(s.todos.len(), 1);
    assert_eq!(s.notes[0].text, "New note");
    assert_eq!(s.notes[1].frame, (5, 6));
    let t = &s.todos[0];
    assert_eq!(t.text, "New todo");
    assert_eq!(t.due, None);
    assert!(!t.is_done);
    assert_eq!(t.loop_freq, LoopFrequency::Once);
    assert!(!t.notified);
}

#[test]
fn locate_searches_notes_then_todos() {
    let mut s: CanvasState<Frame> = CanvasState::new();
    s.add_todo((0, 0));
    s.add_note((0, 0));
    s.add_todo((0, 0));
    assert_eq!(s.locate(0), Some(Place::Todo(0)));
    assert_eq!(s.locate(1), Some(Place::Note(0)));
    assert_eq!(s.locate(2), Some(Place::Todo(1)));
    assert_eq!(s.locate(7), None);
}

#[test]
fn link_gesture_on_two_items_makes_one_link() {
    let mut s: CanvasState<Frame> = CanvasState::new();
    let a = s.add_note((0, 0));
    let b = s.add_todo((0, 0));
    s.begin_or_complete_connection(a);
    assert_eq!(s.connecting_from_id, Some(a));
    assert!(s.connections.is_empty());
    s.begin_or_complete_connection(b);
    assert_eq!(s.connecting_from_id, None);
    assert_eq!(s.connections, vec![(a, b)]);
}

#[test]
fn link_gesture_twice_on_one_item_makes_none() {
    let mut s: CanvasState<Frame> = CanvasState::new();
    let a = s.add_note((0, 0));
    s.begin_or_complete_connection(a);
    s.begin_or_complete_connection(a);
    assert_eq!(s.connecting_from_id, None);
    assert!(s.connections.is_empty());
}

#[test]
fn reversed_links_are_kept_apart() {
    let mut s: CanvasState<Frame> = CanvasState::new();
    let a = s.add_note((0, 0));
    let b = s.add_note((0, 0));
    s.begin_or_complete_connection(a);
    s.begin_or_complete_connection(b);
    s.begin_or_complete_connection(b);
    s.begin_or_complete_connection(a);
    assert_eq!(s.connections, vec![(a, b), (b, a)]);
}

#[test]
fn cancel_drops_the_pending_link() {
    let mut s: CanvasState<Frame> = CanvasState::new();
    let a = s.add_note((0, 0));
    let b = s.add_note((0, 0));
    s.begin_or_complete_connection(a);
    s.cancel_pending_connection();
    assert_eq!(s.connecting_from_id, None);
    s.begin_or_complete_connection(b);
    assert_eq!(s.connecting_from_id, Some(b));
    assert!(s.connections.is_empty());
}

#[test]
fn dangling_links_are_not_drawn() {
    let mut s: CanvasState<Frame> = CanvasState::new();
    let a = s.add_note((0, 0));
    let b = s.add_todo((0, 0));
    s.connections.push((a, 99));
    s.connections.push((a, b));
    s.connections.push((42, b));
    assert_eq!(s.visible_links(), vec![(Place::Note(0), Place::Todo(0))]);
}

#[test]
fn set_due_rearms_the_notice() {
    let mut s: CanvasState<Frame> = CanvasState::new();
    let a = s.add_todo((0, 0));
    s.todos[0].notified = true;
    assert!(s.set_due(a, at(MONDAY_9)));
    assert_eq!(s.todos[0].due, Some(at(MONDAY_9)));
    assert!(!s.todos[0].notified);
    assert!(!s.set_due(a + 1, at(0)));
}

#[test]
fn one_shot_item_is_announced_once() {
    let mut s: CanvasState<Frame> = CanvasState::new();
    let a = s.add_todo((0, 0));
    s.todos[0].text = "pay rent".to_string();
    s.set_due(a, at(MONDAY_9));
    assert!(s.scan_due(at(MONDAY_9)).is_empty());
    assert_eq!(s.scan_due(at(MONDAY_9 + 1)), vec!["pay rent".to_string()]);
    assert!(s.todos[0].notified);
    assert_eq!(s.todos[0].due, Some(at(MONDAY_9)));
    for k in 2..20 {
        assert!(s.scan_due(at(MONDAY_9 + k * 15)).is_empty());
    }
    assert!(s.todos[0].notified);
}

#[test]
fn recurring_item_is_rearmed() {
    let mut s: CanvasState<Frame> = CanvasState::new();
    let a = s.add_todo((0, 0));
    s.todos[0].loop_freq = LoopFrequency::Daily;
    s.set_due(a, at(MONDAY_9));
    let now = at(MONDAY_9 + 2 * DAY + 60);
    assert_eq!(s.scan_due(now), vec!["New todo".to_string()]);
    assert!(!s.todos[0].notified);
    assert_eq!(s.todos[0].due, Some(at(MONDAY_9 + 3 * DAY)));
    assert!(s.scan_due(now).is_empty());
    assert_eq!(s.scan_due(at(MONDAY_9 + 3 * DAY + 1)).len(), 1);
    assert_eq!(s.todos[0].due, Some(at(MONDAY_9 + 4 * DAY)));
}

#[test]
fn done_items_and_items_without_due_are_skipped() {
    let mut s: CanvasState<Frame> = CanvasState::new();
    let a = s.add_todo((0, 0));
    s.add_todo((0, 0));
    s.set_due(a, at(MONDAY_9));
    s.todos[0].is_done = true;
    assert!(s.scan_due(at(MONDAY_9 + DAY)).is_empty());
    assert!(!s.todos[0].notified);
    assert!(!s.todos[1].notified);
}

#[test]
fn scan_announces_in_order() {
    let mut s: CanvasState<Frame> = CanvasState::new();
    let a = s.add_todo((0, 0));
    let b = s.add_todo((0, 0));
    let c = s.add_todo((0, 0));
    s.todos[0].text = "first".to_string();
    s.todos[1].text = "second".to_string();
    s.todos[2].text = "third".to_string();
    s.todos[2].loop_freq = LoopFrequency::Friday;
    s.set_due(a, at(MONDAY_9));
    s.set_due(b, at(MONDAY_9 + 10 * DAY));
    s.set_due(c, at(MONDAY_9));
    let fired = s.scan_due(at(MONDAY_9 + 2 * DAY + 3600));
    assert_eq!(fired, vec!["first".to_string(), "third".to_string()]);
    assert_eq!(s.todos[2].due, Some(at(MONDAY_9 + 4 * DAY)));
    assert_eq!(s.todos[1].due, Some(at(MONDAY_9 + 10 * DAY)));
}

#[test]
fn contains_id_sees_notes_and_todos() {
    let mut s: CanvasState<Frame> = CanvasState::new();
    let a = s.add_note((0, 0));
    let b = s.add_todo((0, 0));
    assert!(s.contains_id(a));
    assert!(s.contains_id(b));
    assert!(!s.contains_id(b + 1));
}

#[test]
fn well_formed_canvas_checks() {
    let mut s: CanvasState<Frame> = CanvasState::new();
    let a = s.add_note((0, 0));
    s.add_todo((0, 0));
    assert!(s.is_well_formed());
    s.begin_or_complete_connection(a);
    assert!(s.is_well_formed());
    s.connecting_from_id = Some(9);
    assert!(!s.is_well_formed());
    s.connecting_from_id = None;
    s.todos[0].id = a;
    assert!(!s.is_well_formed());
    s.todos[0].id = 1;
    s.next_id = 1;
    assert!(!s.is_well_formed());
    s.next_id = 2;
    s.todos[0].due = Some(at(i64::MAX));
    assert!(!s.is_well_formed());
    s.todos[0].due = Some(at(MONDAY_9));
    assert!(s.is_well_formed());
}
