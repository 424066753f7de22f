use veil::session::liveness::{
    compute_sleep_deadline, fire_hot_standby_trigger, hot_standby_should_auto_fire, CloseReason,
    Liveness, OnceTrigger, PendingKeepaliveProbe, ProbeStage, StandbyAttempt, Tick, TriggerReason,
};
use veil::session::pacing::{
    battery_scale, BackpressureSignal, BatteryScale, OutboundBatchCoalescer, SessionRotationDeadline,
};
use veil::session::signals::{
    current_mobile_background_keepalive_factor, current_mobile_background_keepalive_multiplier,
    current_mobile_background_tier, current_outbound_batch_window, current_session_max_age_secs,
    current_session_rotation_range, padding_enabled, set_mobile_background_keepalive_multiplier,
    set_mobile_background_mode, set_mobile_background_tier, set_mobile_low_battery_threshold_pct,
    set_mobile_outbound_batch_window_ms, set_padding_enabled, set_session_max_age_secs,
    set_session_rotation_range, set_session_rotation_range_unchecked_for_tests,
    should_suppress_background_maintenance, Signals, MAX_MOBILE_BACKGROUND_KEEPALIVE_MULTIPLIER,
    MAX_MOBILE_OUTBOUND_BATCH_WINDOW_MS,
};
use veil::session::timers::SessionTimers;
use veil::time::{Duration, Instant};

fn secs(n: u64) -> Duration {
    Duration::from_secs(n)
}

fn at(n: u64) -> Instant {
    Instant::at(secs(n))
}

/// Keepalives every 10 s, idle after 60 s, from 1000 s on.
fn alive() -> Liveness {
    Liveness::new(secs(10), secs(60), false, at(1000), secs(10), secs(30))
}

fn tick(l: &mut Liveness, now: u64) -> Tick {
    l.tick(at(now), true, secs(10), secs(30))
}

fn calm() -> Tick {
    Tick::Proceed { stalled: false, cover: false, keepalive: false, probe: ProbeStage::Quiet }
}

#[test]
fn a_quiet_tick_does_nothing() {
    let mut l = alive();
    assert_eq!(tick(&mut l, 1001), calm());
    let mut off = Liveness::new(secs(0), secs(0), false, at(1000), secs(0), secs(30));
    assert_eq!(tick(&mut off, 900_000), calm());
}

#[test]
fn keepalives_and_cover_come_when_due() {
    let mut l = alive();
    assert_eq!(
        tick(&mut l, 1010),
        Tick::Proceed { stalled: false, cover: false, keepalive: true, probe: ProbeStage::Quiet }
    );
    assert!(l.probe.is_armed());
    l.note_keepalive_ack();
    assert_eq!(
        tick(&mut l, 1030),
        Tick::Proceed { stalled: false, cover: true, keepalive: true, probe: ProbeStage::Quiet }
    );
    let mut plain = alive();
    assert_eq!(
        plain.tick(at(1030), false, secs(10), secs(30)),
        Tick::Proceed { stalled: false, cover: false, keepalive: true, probe: ProbeStage::Quiet }
    );
}

#[test]
fn an_unanswered_keepalive_is_noticed_once_and_again() {
    let mut l = alive();
    tick(&mut l, 1010);
    let Tick::Proceed { probe, .. } = tick(&mut l, 1020) else { panic!("goes on") };
    assert_eq!(probe, ProbeStage::First);
    assert_eq!(l.swap_attempts, 1);
    assert!(!l.reap_after_attempt(at(1020), true));
    assert!(l.reap_after_attempt(at(1020), false), "nothing to fall back on");
    let Tick::Proceed { probe, .. } = tick(&mut l, 1021) else { panic!("goes on") };
    assert_eq!(probe, ProbeStage::Again);
    assert!(l.reap_after_attempt(at(1021), true), "the second attempt failed too");
    l.note_keepalive_ack();
    assert_eq!((l.swap_attempts, l.probe.is_armed()), (0, false));
    assert!(!l.reap_after_attempt(at(1022), false));
}

#[test]
fn a_stall_is_noticed_once_until_something_comes() {
    let mut l = alive();
    let Tick::Proceed { stalled, .. } = tick(&mut l, 1040) else { panic!("goes on") };
    assert!(stalled);
    let Tick::Proceed { stalled, .. } = tick(&mut l, 1041) else { panic!("goes on") };
    assert!(!stalled);
    l.note_byte(at(1042));
    assert!(!l.stall_trigger.has_fired());
    let Tick::Proceed { stalled, .. } = tick(&mut l, 1082) else { panic!("goes on") };
    assert!(stalled);
}

#[test]
fn a_silent_peer_is_given_up() {
    let mut l = alive();
    assert_eq!(tick(&mut l, 1060), Tick::Close(CloseReason::IdleTimeout));
    let mut l = alive();
    for swap in [1050, 1100, 1150] {
        l.note_swap(at(swap));
    }
    assert_eq!(tick(&mut l, 1180), Tick::Close(CloseReason::LivenessCeiling));
}

#[test]
fn triggers_fire_once() {
    let mut t = OnceTrigger::new();
    assert!(t.try_fire());
    assert!(!t.try_fire());
    t.clear();
    assert!(t.try_fire());
    let mut p = PendingKeepaliveProbe::new();
    assert!(p.try_arm(at(1)));
    assert!(!p.try_arm(at(2)));
    assert_eq!(p.oldest(), Some(at(1)));
}

#[test]
fn standby_is_tried_where_it_can_help() {
    assert!(hot_standby_should_auto_fire(true, TriggerReason::RxStall.as_str()));
    assert!(!hot_standby_should_auto_fire(true, "primary_closed"));
    assert!(!hot_standby_should_auto_fire(false, "rx_stall"));
    let fire = |c, why, keys, uri| fire_hot_standby_trigger(c, why, keys, uri);
    assert_eq!(fire(None, "rx_stall", true, true), StandbyAttempt::Skip);
    assert_eq!(fire(Some(false), "rx_stall", true, true), StandbyAttempt::Skip);
    assert_eq!(fire(Some(true), "rx_stall", false, true), StandbyAttempt::Skip);
    assert_eq!(fire(Some(true), "primary_closed", true, true), StandbyAttempt::Skip);
    assert_eq!(fire(Some(true), "rx_stall", true, true), StandbyAttempt::OtherAddress);
    assert_eq!(fire(Some(true), "rotation_deadline", true, true), StandbyAttempt::SameAddress);
    assert_eq!(fire(Some(true), "rotation_deadline", true, false), StandbyAttempt::OtherAddress);
    assert_eq!(TriggerReason::WriteErrorThreshold.as_str(), "write_error_threshold");
    assert_eq!(TriggerReason::KeepaliveProbeTimeout.as_str(), "keepalive_probe_timeout");
    assert_eq!(TriggerReason::WriterClosed.as_str(), "writer_closed");
}

#[test]
fn the_earliest_event_ends_the_sleep() {
    let t = SessionTimers::new(secs(10), secs(60), at(1000), secs(10), secs(30));
    let sleep = |on, probe: Option<u64>, hold: Option<u64>, rotate: Option<u64>| {
        compute_sleep_deadline(
            &t,
            at(1060),
            on,
            on,
            false,
            secs(5),
            probe.map(at),
            false,
            hold.map(at),
            rotate.map(at),
        )
    };
    assert_eq!(sleep(true, None, None, None), Some(at(1010)));
    assert_eq!(sleep(true, Some(1001), None, None), Some(at(1006)));
    assert_eq!(sleep(true, Some(1001), Some(1003), None), Some(at(1003)));
    assert_eq!(sleep(true, None, None, Some(1002)), Some(at(1002)));
    assert_eq!(sleep(false, Some(1001), None, None), Some(at(1060)));
}

#[test]
fn congestion_is_signalled_at_most_once_per_cooldown() {
    let mut s = BackpressureSignal::new(secs(1));
    assert!(s.try_arm(at(5)));
    assert!(!s.try_arm(at(5)));
    assert!(s.try_arm(at(6)));
}

#[test]
fn only_deferrable_frames_are_held_back() {
    let mut c = OutboundBatchCoalescer::new(at(10));
    let w = Some(Duration::from_millis(500));
    let soon = Instant::at(Duration::from_millis(10_400));
    assert!(c.is_coalescing(soon, w, Some(2)));
    assert!(!c.is_coalescing(soon, w, Some(1)));
    assert!(!c.is_coalescing(soon, None, Some(2)));
    assert!(!c.is_coalescing(soon, w, None));
    assert!(!c.is_coalescing(at(11), w, Some(2)));
    assert_eq!(
        c.coalesce_deadline(w, Some(3)),
        Some(Instant::at(Duration::from_millis(10_500)))
    );
    assert_eq!(c.coalesce_deadline(w, Some(0)), None);
    c.record_drain(at(20));
    assert_eq!(c.last_drain, at(20));
}

#[test]
fn a_connection_lives_within_its_range() {
    assert_eq!(SessionRotationDeadline::lifetime_bounds_ms((0, 0)), None);
    assert_eq!(
        SessionRotationDeadline::lifetime_bounds_ms((0, 100)),
        Some((90_000, 110_000))
    );
    assert_eq!(
        SessionRotationDeadline::lifetime_bounds_ms((60, 100)),
        Some((60_000, 100_000))
    );
    let d = SessionRotationDeadline::compute(at(5), Some(secs(10)));
    assert_eq!(d.deadline(), Some(at(15)));
    assert!(!d.is_due(at(14)) && d.is_due(at(15)));
    assert!(!SessionRotationDeadline::compute(at(5), None).is_due(at(900)));
}

#[test]
fn settings_keep_within_their_bounds() {
    let mut s = Signals::default();
    assert!(!padding_enabled(&s));
    set_padding_enabled(&mut s, true);
    assert!(padding_enabled(&s));
    set_mobile_background_keepalive_multiplier(&mut s, 0);
    assert_eq!(current_mobile_background_keepalive_multiplier(&s), 1);
    set_mobile_background_keepalive_multiplier(&mut s, 9999);
    assert_eq!(
        current_mobile_background_keepalive_multiplier(&s),
        MAX_MOBILE_BACKGROUND_KEEPALIVE_MULTIPLIER
    );
    set_mobile_background_tier(&mut s, 9);
    assert_eq!(current_mobile_background_tier(&s), 2);
    assert!(should_suppress_background_maintenance(&s));
    set_mobile_background_mode(&mut s, false);
    assert_eq!(current_mobile_background_tier(&s), 0);
}

#[test]
fn deeper_tiers_stretch_keepalives_more() {
    let mut s = Signals::new();
    set_mobile_background_keepalive_multiplier(&mut s, 8);
    assert_eq!(current_mobile_background_keepalive_factor(&s), 1);
    set_mobile_background_tier(&mut s, 1);
    assert_eq!(current_mobile_background_keepalive_factor(&s), 2);
    set_mobile_background_mode(&mut s, true);
    assert_eq!(current_mobile_background_keepalive_factor(&s), 8);
    set_mobile_background_keepalive_multiplier(&mut s, 1);
    assert_eq!(current_mobile_background_keepalive_factor(&s), 1);
}

#[test]
fn batching_waits_for_a_low_battery() {
    let mut s = Signals::new();
    set_mobile_outbound_batch_window_ms(&mut s, 200);
    assert_eq!(current_outbound_batch_window(&s, 10), None);
    set_mobile_low_battery_threshold_pct(&mut s, Some(20));
    assert_eq!(current_outbound_batch_window(&s, 20), Some(Duration::from_millis(200)));
    assert_eq!(current_outbound_batch_window(&s, 21), None);
    assert_eq!(current_outbound_batch_window(&s, 0), None, "not known");
    set_mobile_outbound_batch_window_ms(&mut s, 99_999);
    assert_eq!(
        current_outbound_batch_window(&s, 1),
        Some(Duration::from_millis(MAX_MOBILE_OUTBOUND_BATCH_WINDOW_MS as u64))
    );
    set_mobile_low_battery_threshold_pct(&mut s, None);
    assert_eq!(current_outbound_batch_window(&s, 1), None);
}

#[test]
fn lifetimes_are_ordered_and_not_too_short() {
    let mut s = Signals::new();
    assert_eq!(current_session_rotation_range(&s), (0, 0));
    set_session_max_age_secs(&mut s, 5);
    assert_eq!(current_session_max_age_secs(&s), 60);
    assert_eq!(current_session_rotation_range(&s), (0, 60));
    set_session_rotation_range(&mut s, 500, 100);
    assert_eq!(current_session_rotation_range(&s), (100, 100));
    set_session_rotation_range(&mut s, 100, 0);
    assert_eq!(current_session_rotation_range(&s), (0, 0), "no lifetime at all");
    set_session_rotation_range(&mut s, 70, 100);
    assert_eq!(current_session_rotation_range(&s), (70, 100));
    set_session_rotation_range_unchecked_for_tests(&mut s, 9, 0);
    assert_eq!(current_session_rotation_range(&s), (0, 0));
    set_session_rotation_range_unchecked_for_tests(&mut s, 9, 3);
    assert_eq!(current_session_rotation_range(&s), (3, 3));
}

#[test]
fn an_empty_battery_stretches_keepalives() {
    let at_level = |level| battery_scale(level, 20, 50);
    assert_eq!(at_level(0), BatteryScale::Full, "no battery");
    assert_eq!(at_level(1), BatteryScale::Low);
    assert_eq!(at_level(19), BatteryScale::Low);
    assert_eq!(at_level(20), BatteryScale::Medium);
    assert_eq!(at_level(49), BatteryScale::Medium);
    assert_eq!(at_level(50), BatteryScale::Full);
}
