use veil::session::timers::{
    SessionTimers, REALTIME_ACTIVITY_WINDOW, REALTIME_KEEPALIVE_INTERVAL,
    REALTIME_KEEPALIVE_PROBE_TIMEOUT,
};
use veil::time::{Duration, Instant};

fn secs(n: u64) -> Duration {
    Duration::from_secs(n)
}

fn at(n: u64) -> Instant {
    Instant::at(secs(n))
}

/// Timers that start at 1000 s and wait for whole intervals.
fn timers(keepalive: u64, idle: u64) -> SessionTimers {
    SessionTimers::new(secs(keepalive), secs(idle), at(1000), secs(keepalive), secs(30))
}

#[test]
fn idle_disabled_when_timeout_zero() {
    let t = timers(10, 0);
    assert!(!t.idle_enabled());
    assert!(!t.idle_timeout_elapsed(at(2000)));
}

#[test]
fn keepalive_disabled_when_interval_zero() {
    let mut t = timers(0, 10);
    assert!(!t.keepalive_enabled());
    assert!(!t.cover_enabled(), "cover-traffic must follow keepalive");
    assert!(!t.keepalive_due_and_reschedule(at(4600), secs(0)));
    assert!(!t.cover_due_and_reschedule(at(4600), secs(30)));
}

#[test]
fn note_frame_received_advances_last_rx() {
    let mut t = timers(10, 60);
    assert_eq!(t.last_rx(), at(1000));
    t.note_frame_received(at(1005));
    assert_eq!(t.last_rx(), at(1005));
}

#[test]
fn idle_timeout_elapsed_uses_last_rx() {
    let mut t = timers(10, 5);
    assert!(!t.idle_timeout_elapsed(at(1004)));
    assert!(t.idle_timeout_elapsed(at(1006)));
    t.note_frame_received(at(1006));
    assert!(!t.idle_timeout_elapsed(at(1007)), "fresh frame resets the idle ticker");
}

#[test]
fn liveness_ceiling_fires_at_three_times_idle() {
    let t = timers(10, 5);
    assert!(!t.liveness_ceiling_elapsed(at(1014)));
    assert!(t.liveness_ceiling_elapsed(at(1015)));
}

#[test]
fn note_swap_does_not_reset_liveness_ceiling() {
    let mut t = timers(10, 5);
    t.note_swap(at(1004));
    t.note_swap(at(1008));
    t.note_swap(at(1012));
    assert!(!t.idle_timeout_elapsed(at(1015)));
    assert!(
        t.liveness_ceiling_elapsed(at(1015)),
        "swap-loop must not mask a vanished peer past the liveness ceiling"
    );
}

#[test]
fn genuine_rx_age_tracks_last_genuine_rx_and_ignores_swap() {
    let mut t = timers(10, 5);
    assert_eq!(t.genuine_rx_age(at(1006)), secs(6));
    t.note_swap(at(1004));
    assert_eq!(t.genuine_rx_age(at(1008)), secs(8));
    t.note_frame_received(at(1008));
    assert_eq!(t.genuine_rx_age(at(1009)), secs(1));
}

#[test]
fn note_rx_activity_advances_last_rx_but_not_genuine() {
    let mut t = timers(10, 5);
    t.note_rx_activity(at(1004));
    assert_eq!(t.last_rx(), at(1004));
    assert_eq!(t.genuine_rx_age(at(1006)), secs(6));
    t.note_rx_activity(at(1008));
    t.note_rx_activity(at(1012));
    assert!(
        t.liveness_ceiling_elapsed(at(1015)),
        "keepalive-only RX must not mask a genuinely wedged peer"
    );
}

#[test]
fn note_frame_received_resets_liveness_ceiling() {
    let mut t = timers(10, 5);
    t.note_frame_received(at(1014));
    assert!(!t.liveness_ceiling_elapsed(at(1015)));
    assert!(t.liveness_ceiling_elapsed(at(1029)));
}

#[test]
fn liveness_ceiling_disabled_when_idle_disabled() {
    let t = timers(10, 0);
    assert!(!t.idle_enabled());
    assert!(!t.liveness_ceiling_elapsed(at(101_000)));
}

#[test]
fn rx_stall_elapsed_at_two_thirds_idle() {
    let t = timers(10, 9);
    assert!(!t.rx_stall_elapsed(at(1005)));
    assert!(t.rx_stall_elapsed(at(1006)));
    assert_eq!(t.stall_trigger_deadline(), at(1006));
    assert_eq!(t.idle_deadline(), at(1009));
}

#[test]
fn keepalive_due_advances_next_when_fires() {
    let mut t = timers(1, 60);
    assert_eq!(t.next_keepalive(), at(1001));
    let before = Instant::at(Duration::from_millis(1_000_999));
    assert!(!t.keepalive_due_and_reschedule(before, secs(1)));
    let prev_next = t.next_keepalive();
    assert!(t.keepalive_due_and_reschedule(at(1001), secs(1)));
    assert!(t.next_keepalive() > prev_next, "fire must advance next_keepalive");
    assert_eq!(t.next_keepalive(), at(1002));
}

#[test]
fn update_keepalive_interval_reschedules() {
    let mut t = timers(1, 60);
    let prev = t.next_keepalive();
    t.update_keepalive_interval(secs(60), at(1100), secs(60));
    assert!(t.next_keepalive() > prev);
    assert_eq!(t.next_keepalive(), at(1160));
}

#[test]
fn note_swap_advances_last_rx() {
    let mut t = timers(10, 30);
    t.note_swap(at(1015));
    assert_eq!(t.last_rx(), at(1015));
    assert!(
        !t.idle_timeout_elapsed(at(1035)),
        "swap counts as activity and the idle ticker resets"
    );
}

#[test]
fn realtime_activity_arms_and_decays() {
    let mut t = timers(30, 90);
    assert!(!t.realtime_active(at(1000)), "no realtime frame yet");
    t.note_realtime_activity(at(1000), secs(2));
    assert!(t.realtime_active(at(1000 + REALTIME_ACTIVITY_WINDOW / 2)));
    assert!(
        !t.realtime_active(at(1000 + REALTIME_ACTIVITY_WINDOW)),
        "accel must decay once the activity window elapses"
    );
}

#[test]
fn realtime_activity_accelerates_keepalive_interval_and_probe() {
    let mut t = timers(30, 90);
    let base = secs(30);
    assert_eq!(t.effective_keepalive_interval(at(1000)), base);
    assert_eq!(t.effective_keepalive_probe_timeout(base, at(1000)), base);
    t.note_realtime_activity(at(1000), secs(2));
    assert_eq!(
        t.effective_keepalive_interval(at(1000)),
        secs(REALTIME_KEEPALIVE_INTERVAL)
    );
    assert_eq!(t.accel_keepalive_interval(), secs(REALTIME_KEEPALIVE_INTERVAL));
    assert_eq!(
        t.effective_keepalive_probe_timeout(base, at(1000)),
        secs(REALTIME_KEEPALIVE_PROBE_TIMEOUT)
    );
    let later = at(1000 + REALTIME_ACTIVITY_WINDOW + 1);
    assert_eq!(t.effective_keepalive_interval(later), base);
    assert_eq!(t.effective_keepalive_probe_timeout(base, later), base);
}

#[test]
fn realtime_activity_never_slows_a_faster_config() {
    let mut t = timers(1, 3);
    t.note_realtime_activity(at(1000), secs(1));
    assert_eq!(t.effective_keepalive_interval(at(1000)), secs(1));
    assert_eq!(t.effective_keepalive_probe_timeout(secs(1), at(1000)), secs(1));
}

#[test]
fn realtime_activity_zero_keepalive_stays_disabled() {
    let mut t = timers(0, 10);
    t.note_realtime_activity(at(1000), secs(0));
    assert_eq!(
        t.effective_keepalive_probe_timeout(secs(0), at(1000)),
        secs(0),
        "keepalive-disabled sessions must not grow a probe timeout"
    );
    assert!(!t.keepalive_due_and_reschedule(at(4600), secs(0)));
}

#[test]
fn realtime_rising_edge_pulls_next_keepalive_in() {
    let mut t = timers(30, 90);
    assert!(t.next_keepalive() > at(1015));
    t.note_realtime_activity(at(1000), secs(2));
    assert!(
        t.next_keepalive() <= at(1000 + REALTIME_KEEPALIVE_INTERVAL * 2),
        "first accel keepalive must be pulled in from the base schedule"
    );
    let after_fire = t.next_keepalive();
    t.note_realtime_activity(Instant::at(Duration::from_millis(1_000_020)), secs(2));
    assert_eq!(t.next_keepalive(), after_fire);
}

#[test]
fn cover_frames_come_at_their_own_pace() {
    let mut t = timers(10, 60);
    assert!(t.cover_enabled());
    assert_eq!(t.next_cover(), at(1030));
    assert!(!t.cover_due_and_reschedule(at(1029), secs(30)));
    assert!(t.cover_due_and_reschedule(at(1030), secs(25)));
    assert_eq!(t.next_cover(), at(1055));
}
