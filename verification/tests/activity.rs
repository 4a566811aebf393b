use rex_daemon::activity::ActivityTracker;

#[test]
fn lifecycle_flips_between_ready_and_idle() {
    let mut tracker = ActivityTracker::new(1_000);
    assert_eq!(tracker.lifecycle_state(), "idle");
    let guard = tracker.track_work();
    assert_eq!(tracker.lifecycle_state(), "ready");
    tracker.finish_work(guard, 1_000);
    assert_eq!(tracker.lifecycle_state(), "idle");
}

#[test]
fn client_contact_delays_shutdown() {
    let mut tracker = ActivityTracker::new(10_000);
    let now = 15_000;
    assert!(tracker.should_shutdown(3, now));
    tracker.record_client_contact(now);
    assert!(!tracker.should_shutdown(3, now));
}

#[test]
fn active_work_prevents_shutdown() {
    let mut tracker = ActivityTracker::new(10_000);
    let _guard = tracker.track_work();
    assert!(!tracker.should_shutdown(1, 15_000));
}

#[test]
fn nested_work_guards_balance() {
    let mut tracker = ActivityTracker::new(1_000);
    let outer = tracker.track_work();
    let inner = tracker.track_work();
    tracker.finish_work(inner, 1_000);
    assert!(tracker.is_busy());
    tracker.finish_work(outer, 1_000);
    assert!(!tracker.is_busy());
}

#[test]
fn idle_seconds_zero_while_busy() {
    let mut tracker = ActivityTracker::new(10_000);
    let _guard = tracker.track_work();
    assert_eq!(tracker.idle_seconds(20_000), 0);
}

#[test]
fn idle_seconds_counts_from_last_activity() {
    let tracker = ActivityTracker::new(10_000);
    assert_eq!(tracker.idle_seconds(17_500), 7);
    assert_eq!(tracker.seconds_until_shutdown(10, 17_500), 3);
    assert!(!tracker.should_shutdown(0, 17_500));
}

#[test]
fn finished_work_restarts_the_idle_clock() {
    let mut tracker = ActivityTracker::new(0);
    let guard = tracker.track_work();
    tracker.finish_work(guard, 50_000);
    assert_eq!(tracker.idle_seconds(52_000), 2);
    assert!(!tracker.should_shutdown(3, 52_000));
    assert!(tracker.should_shutdown(3, 53_000));
}

#[test]
fn work_count_balances_and_idle_time_follows_last_finish() {
    let mut tracker = ActivityTracker::new(1_000);
    let outer = tracker.track_work();
    let inner = tracker.track_work();
    tracker.record_client_contact(1_500);
    tracker.finish_work(inner, 2_000);
    assert!(tracker.is_busy());
    assert_eq!(tracker.idle_seconds(9_000), 0);
    tracker.finish_work(outer, 3_000);
    assert!(!tracker.is_busy());
    assert_eq!(tracker.last_work_at, 3_000);
    assert_eq!(tracker.idle_seconds(8_500), 5);
}
