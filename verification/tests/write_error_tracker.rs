use veil::session::write_error_tracker::{TriggerFire, WriteErrorTracker};

#[test]
fn new_starts_at_zero() {
    let t = WriteErrorTracker::new(3);
    assert_eq!(t.count(), 0);
    assert_eq!(t.threshold(), 3);
}

#[test]
fn on_error_increments() {
    let mut t = WriteErrorTracker::new(3);
    let _ = t.on_error();
    assert_eq!(t.count(), 1);
    let _ = t.on_error();
    assert_eq!(t.count(), 2);
}

#[test]
fn on_error_below_threshold_returns_no() {
    let mut t = WriteErrorTracker::new(3);
    assert_eq!(t.on_error(), TriggerFire::No);
    assert_eq!(t.on_error(), TriggerFire::No);
}

#[test]
fn on_error_at_threshold_returns_yes() {
    let mut t = WriteErrorTracker::new(3);
    let _ = t.on_error();
    let _ = t.on_error();
    assert_eq!(t.on_error(), TriggerFire::Yes);
}

#[test]
fn on_error_above_threshold_continues_returning_yes() {
    let mut t = WriteErrorTracker::new(2);
    let _ = t.on_error();
    assert_eq!(t.on_error(), TriggerFire::Yes);
    assert_eq!(t.on_error(), TriggerFire::Yes);
}

#[test]
fn zero_threshold_never_fires() {
    let mut t = WriteErrorTracker::new(0);
    assert_eq!(t.on_error(), TriggerFire::No);
    assert_eq!(t.on_error(), TriggerFire::No);
    assert_eq!(t.count(), 2);
}

#[test]
fn count_saturates_does_not_overflow() {
    let mut t = WriteErrorTracker::with_count(5, u32::MAX - 1);
    let _ = t.on_error();
    let _ = t.on_error();
    assert_eq!(t.count(), u32::MAX);
    assert_eq!(t.on_error(), TriggerFire::Yes);
}
