use commitchi::bindings::{KeyCode, KeyEvent, KeyModifiers};
use commitchi::events::{remaining_until, AppEvent, EventSchedule};

const MS: u64 = 1_000_000;

#[test]
fn timeout_targets_next_tick_or_render() {
    let start = 0;
    let schedule = EventSchedule::starting_at(start, 50 * MS, 16 * MS);

    assert_eq!(schedule.poll_timeout(start + 10 * MS), 6 * MS);
}

#[test]
fn due_events_separate_tick_and_render() {
    let start = 0;
    let mut schedule = EventSchedule::starting_at(start, 50 * MS, 16 * MS);

    let events = schedule.drain_due(start + 50 * MS);

    assert_eq!(events, vec![AppEvent::Tick(50 * MS), AppEvent::Render]);
}

#[test]
fn draining_restarts_only_the_due_intervals() {
    let mut schedule = EventSchedule::new(50 * MS, 16 * MS);
    assert_eq!(schedule.drain_due(20 * MS), vec![AppEvent::Render]);
    assert_eq!(schedule.last_render, 20 * MS);
    assert_eq!(schedule.last_tick, 0);
    assert_eq!(schedule.poll_timeout(20 * MS), 16 * MS);
    assert!(schedule.drain_due(21 * MS).is_empty());
}

#[test]
fn overdue_schedule_does_not_wait() {
    let schedule = EventSchedule::starting_at(100, 50, 16);
    assert_eq!(schedule.poll_timeout(1_000), 0);
    assert_eq!(remaining_until(1_000, 100, 50), 0);
    assert_eq!(remaining_until(110, 100, 50), 40);
    // A clock reading before the last event counts as no time passed.
    assert_eq!(remaining_until(50, 100, 50), 50);
}

#[test]
fn input_events_carry_their_key() {
    let key = KeyEvent::new(KeyCode::Char('q'), KeyModifiers::none());
    assert_eq!(AppEvent::Input(key), AppEvent::Input(key));
    assert_ne!(AppEvent::Input(key), AppEvent::StateFileChanged);
}
