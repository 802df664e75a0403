use scuffle::context::{poll_outcome, TrackerState};

#[test]
fn test_tracker_counts_and_notifies_last_release_after_stop() {
    let mut tracker = TrackerState::new();
    assert!(!tracker.must_wait());
    tracker.child();
    tracker.child();
    assert!(tracker.must_wait());
    tracker.stop();
    assert!(!tracker.release());
    assert!(tracker.release());
    assert!(!tracker.must_wait());
}

#[test]
fn test_tracker_no_notify_while_running() {
    let mut tracker = TrackerState::new();
    tracker.child();
    assert!(!tracker.release());
    assert!(!tracker.must_wait());
}

#[test]
fn test_poll_outcome() {
    assert_eq!(poll_outcome(false, Some(3)), Some(Some(3)));
    assert_eq!(poll_outcome(true, Some(3)), Some(Some(3)));
    assert_eq!(poll_outcome::<i32>(true, None), Some(None));
    assert_eq!(poll_outcome::<i32>(false, None), None);
}
