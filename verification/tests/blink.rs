use cursor_anim::blink::{BlinkState, BlinkStatus};
use cursor_anim::cursor::{Cursor, CursorShape, GridPosition};

const MS: u128 = 1_000_000;

fn cursor(wait: Option<u64>, on: Option<u64>, off: Option<u64>) -> Cursor {
    Cursor {
        position: GridPosition { x: 2, y: 3 },
        shape: CursorShape::Block,
        cell_percentage: None,
        blinkwait: wait,
        blinkon: on,
        blinkoff: off,
        enabled: true,
    }
}

#[test]
fn new_scheduler_waits() {
    let status = BlinkStatus::new();
    assert_eq!(status.state(), BlinkState::Waiting);
}

#[test]
fn first_snapshot_with_wait_is_hidden_and_waiting() {
    let mut status = BlinkStatus::new();
    let c = cursor(Some(500), Some(200), Some(100));
    assert!(!status.update_status_at(&c, 0));
    assert_eq!(status.state(), BlinkState::Waiting);
}

#[test]
fn first_snapshot_without_wait_is_on() {
    let mut status = BlinkStatus::new();
    let c = cursor(None, Some(200), Some(100));
    assert!(status.update_status_at(&c, 7 * MS));
    assert_eq!(status.state(), BlinkState::On);
}

#[test]
fn wait_expires_only_after_strictly_more_than_its_duration() {
    let mut status = BlinkStatus::new();
    let c = cursor(Some(500), Some(200), Some(100));
    assert!(!status.update_status_at(&c, 10 * MS));
    assert!(!status.update_status_at(&c, 509 * MS));
    assert!(!status.update_status_at(&c, 510 * MS));
    assert_eq!(status.state(), BlinkState::Waiting);
    assert!(status.update_status_at(&c, 510 * MS + 1));
    assert_eq!(status.state(), BlinkState::On);
}

#[test]
fn full_cycle_follows_waiting_on_off_on() {
    let mut status = BlinkStatus::new();
    let c = cursor(Some(500), Some(200), Some(100));
    let mut seen = Vec::new();
    let mut states = Vec::new();
    for t in [0u128, 300, 501, 600, 701, 702, 750, 802, 803, 900, 1003, 1004] {
        seen.push(status.update_status_at(&c, t * MS));
        states.push(status.state());
    }
    assert_eq!(
        seen,
        vec![false, false, true, true, true, false, false, false, true, true, true, false]
    );
    assert_eq!(states[0], BlinkState::Waiting);
    assert_eq!(states[2], BlinkState::On);
    assert_eq!(states[5], BlinkState::Off);
    assert_eq!(states[8], BlinkState::On);
    assert_eq!(states[11], BlinkState::Off);
    assert!(states[2..].iter().all(|s| *s != BlinkState::Waiting));
}

#[test]
fn transition_time_is_the_frame_that_saw_the_expiry() {
    let mut status = BlinkStatus::new();
    let c = cursor(Some(100), Some(200), Some(100));
    assert!(!status.update_status_at(&c, 0));
    // The wait is seen to be over only at 400 ms; the on phase counts from there.
    assert!(status.update_status_at(&c, 400 * MS));
    assert!(status.update_status_at(&c, 600 * MS));
    assert!(!status.update_status_at(&c, 600 * MS + 1));
    assert_eq!(status.state(), BlinkState::Off);
}

#[test]
fn changed_snapshot_restarts_to_waiting() {
    let mut status = BlinkStatus::new();
    let a = cursor(Some(500), Some(200), Some(100));
    assert!(!status.update_status_at(&a, 0));
    assert!(status.update_status_at(&a, 501 * MS));
    assert_eq!(status.state(), BlinkState::On);
    let mut b = a;
    b.position = GridPosition { x: 9, y: 3 };
    assert!(!status.update_status_at(&b, 502 * MS));
    assert_eq!(status.state(), BlinkState::Waiting);
    // The wait counts from the restart.
    assert!(!status.update_status_at(&b, 1002 * MS));
    assert!(status.update_status_at(&b, 1002 * MS + 1));
}

#[test]
fn changed_snapshot_without_wait_restarts_to_on() {
    let mut status = BlinkStatus::new();
    let a = cursor(None, Some(200), Some(100));
    assert!(status.update_status_at(&a, 0));
    assert!(!status.update_status_at(&a, 201 * MS));
    assert_eq!(status.state(), BlinkState::Off);
    let mut b = a;
    b.shape = CursorShape::Horizontal;
    assert!(status.update_status_at(&b, 202 * MS));
    assert_eq!(status.state(), BlinkState::On);
}

#[test]
fn changed_blink_duration_restarts() {
    let mut status = BlinkStatus::new();
    let a = cursor(Some(50), Some(200), Some(100));
    assert!(!status.update_status_at(&a, 0));
    assert!(status.update_status_at(&a, 51 * MS));
    let b = cursor(Some(50), Some(200), Some(101));
    assert!(!status.update_status_at(&b, 52 * MS));
    assert_eq!(status.state(), BlinkState::Waiting);
}

#[test]
fn zero_wait_shows_always() {
    let mut status = BlinkStatus::new();
    let c = cursor(Some(0), Some(200), Some(100));
    for t in [0u128, 1, 199, 201, 500, 10_000] {
        assert!(status.update_status_at(&c, t * MS));
        assert_eq!(status.state(), BlinkState::On);
    }
}

#[test]
fn zero_on_shows_even_while_waiting() {
    let mut status = BlinkStatus::new();
    let c = cursor(Some(500), Some(0), Some(100));
    for t in [0u128, 400, 501, 5_000] {
        assert!(status.update_status_at(&c, t * MS));
        assert_eq!(status.state(), BlinkState::Waiting);
    }
}

#[test]
fn zero_off_shows_always() {
    let mut status = BlinkStatus::new();
    let c = cursor(None, Some(200), Some(0));
    for t in [0u128, 201, 5_000] {
        assert!(status.update_status_at(&c, t * MS));
    }
}

#[test]
fn missing_duration_never_expires() {
    let mut status = BlinkStatus::new();
    let c = cursor(None, None, Some(100));
    assert!(status.update_status_at(&c, 0));
    assert!(status.update_status_at(&c, 1_000_000 * MS));
    assert_eq!(status.state(), BlinkState::On);
    let mut waiting = BlinkStatus::new();
    let w = cursor(Some(10), None, None);
    assert!(!waiting.update_status_at(&w, 0));
    assert!(waiting.update_status_at(&w, 11 * MS));
    assert!(waiting.update_status_at(&w, 1_000_000 * MS));
    assert_eq!(waiting.state(), BlinkState::On);
}

#[test]
fn reading_before_the_last_transition_counts_as_no_time() {
    let mut status = BlinkStatus::new();
    let c = cursor(Some(10), Some(20), Some(30));
    assert!(!status.update_status_at(&c, 100 * MS));
    assert!(!status.update_status_at(&c, 5 * MS));
    assert_eq!(status.state(), BlinkState::Waiting);
}

#[test]
fn largest_duration_does_not_overflow() {
    let mut status = BlinkStatus::new();
    let c = cursor(Some(u64::MAX), Some(1), Some(1));
    assert!(!status.update_status_at(&c, 0));
    assert!(!status.update_status_at(&c, (u64::MAX as u128) * MS));
    assert!(status.update_status_at(&c, (u64::MAX as u128) * MS + 1));
}

#[test]
fn live_clock_shows_a_steady_cursor() {
    let mut status = BlinkStatus::new();
    let c = cursor(Some(0), Some(1), Some(1));
    assert!(status.update_status(&c));
    assert!(status.update_status(&c));
    assert_eq!(status.state(), BlinkState::On);
}

#[test]
fn live_clock_starts_a_long_wait_hidden() {
    let mut status = BlinkStatus::new();
    let c = cursor(Some(3_600_000), Some(1), Some(1));
    assert!(!status.update_status(&c));
    assert_eq!(status.state(), BlinkState::Waiting);
    let d = cursor(None, Some(3_600_000), Some(1));
    assert!(status.update_status(&d));
    assert_eq!(status.state(), BlinkState::On);
}
