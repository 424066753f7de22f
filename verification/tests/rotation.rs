use veil::time::Duration;
use veil::transport::ephemeral::PortRange;
use veil::transport::error::{IoError, IoErrorKind, TransportError};
use veil::transport::rotation::{
    parse_duration_spec, parse_rate_spec, RotationAction, RotationEvent, RotationInput,
    RotationLoop, RotationPhase, RotationSpec,
};

#[test]
fn parse_basic_units() {
    assert_eq!(parse_duration_spec("30s").unwrap(), Duration::from_secs(30));
    assert_eq!(parse_duration_spec("5m").unwrap(), Duration::from_secs(300));
    assert_eq!(
        parse_duration_spec("3h").unwrap(),
        Duration::from_secs(10_800)
    );
    assert_eq!(
        parse_duration_spec("7d").unwrap(),
        Duration::from_secs(604_800)
    );
}

#[test]
fn parse_zero_is_allowed() {
    assert_eq!(parse_duration_spec("0s").unwrap(), Duration::from_secs(0));
}

#[test]
fn parse_missing_suffix_rejected() {
    let err = parse_duration_spec("300").unwrap_err();
    assert!(err.message().contains("missing unit suffix"));
}

#[test]
fn parse_bad_suffix_rejected() {
    let err = parse_duration_spec("3y").unwrap_err();
    assert!(err.message().contains("missing unit suffix"));
}

#[test]
fn parse_non_numeric_rejected() {
    let err = parse_duration_spec("abch").unwrap_err();
    assert!(err.message().contains("numeric part"));
}

#[test]
fn parse_negative_rejected() {
    assert!(parse_duration_spec("-30s").is_err());
}

#[test]
fn parse_overflow_saturates() {
    let huge = format!("{}d", u64::MAX);
    let dur = parse_duration_spec(&huge).unwrap();
    assert!(dur >= Duration::from_secs(1));
    assert_eq!(dur, Duration::longest());
}

#[test]
fn parse_trims_trailing_whitespace() {
    assert_eq!(
        parse_duration_spec("30s\n").unwrap(),
        Duration::from_secs(30)
    );
    assert_eq!(
        parse_duration_spec("30s ").unwrap(),
        Duration::from_secs(30)
    );
}

#[test]
fn parse_rate_basic() {
    assert_eq!(
        parse_rate_spec("3/h").unwrap(),
        (3, Duration::from_secs(3600))
    );
    assert_eq!(
        parse_rate_spec("1/m").unwrap(),
        (1, Duration::from_secs(60))
    );
    assert_eq!(
        parse_rate_spec("10/30s").unwrap(),
        (10, Duration::from_secs(30))
    );
    assert_eq!(
        parse_rate_spec("5/d").unwrap(),
        (5, Duration::from_secs(86_400))
    );
}

#[test]
fn parse_rate_missing_separator_rejected() {
    assert!(parse_rate_spec("3h").is_err());
    assert!(parse_rate_spec("3").is_err());
}

#[test]
fn parse_rate_empty_side_rejected() {
    assert!(parse_rate_spec("3/").is_err());
    assert!(parse_rate_spec("/h").is_err());
}

#[test]
fn parse_rate_bad_burst_rejected() {
    assert!(parse_rate_spec("abc/h").is_err());
    assert!(parse_rate_spec("-3/h").is_err());
}

#[test]
fn parse_rate_bad_unit_rejected() {
    assert!(parse_rate_spec("3/y").is_err());
    assert!(parse_rate_spec("3/abc").is_err());
}

#[test]
fn complaints_about_specs_are_exact() {
    let words = |s: &str| parse_duration_spec(s).unwrap_err().message();
    assert_eq!(words("  "), "unsupported transport operation: duration spec is empty");
    assert_eq!(
        words("3x"),
        "unsupported transport operation: duration spec `3x`: missing unit suffix (expected s/m/h/d)"
    );
    assert_eq!(
        words(" 3s"),
        "unsupported transport operation: duration spec ` 3s`: numeric part ` 3` not parses as u64"
    );
    let rate = |s: &str| parse_rate_spec(s).unwrap_err().message();
    assert_eq!(
        rate("3"),
        "unsupported transport operation: rate spec `3`: missing `/` separator (expected `N/period`)"
    );
    assert_eq!(
        rate("/h"),
        "unsupported transport operation: rate spec `/h`: both sides of `/` must be non-empty"
    );
    assert_eq!(
        rate("4294967296/h"),
        "unsupported transport operation: rate spec `4294967296/h`: burst part `4294967296` not parses as u32"
    );
    assert_eq!(
        rate("3/y"),
        "unsupported transport operation: duration spec `1y`: missing unit suffix (expected s/m/h/d)"
    );
    assert_eq!(
        rate("3/\u{e9}"),
        "unsupported transport operation: duration spec `\u{e9}`: missing unit suffix (expected s/m/h/d)"
    );
    assert_eq!(parse_rate_spec(" 2/m ").unwrap(), (2, Duration::from_secs(60)));
}

#[test]
fn rotation_spec_rejects_inverted_range() {
    let err = RotationSpec::new(
        "0.0.0.0",
        PortRange::new(60000, 10000),
        8,
        Duration::from_secs(60),
        Duration::from_secs(30),
    )
    .unwrap_err();
    assert!(err.message().contains("port range invalid"));
    assert_eq!(
        err.message(),
        "unsupported transport operation: port range invalid: 60000..=10000"
    );
}

#[test]
fn rotation_spec_rejects_zero_interval() {
    let err = RotationSpec::new(
        "0.0.0.0",
        PortRange::new(10000, 60000),
        8,
        Duration::from_secs(0),
        Duration::from_secs(30),
    )
    .unwrap_err();
    assert!(err.message().contains("rotation_interval must be > 0"));
}

#[test]
fn rotation_spec_accepts_single_port_range() {
    let spec = RotationSpec::new(
        "0.0.0.0",
        PortRange::new(3306, 3306),
        64,
        Duration::from_secs(3600),
        Duration::from_secs(60),
    )
    .unwrap();
    assert_eq!(*spec.port_range.start(), 3306);
    assert_eq!(*spec.port_range.end(), 3306);
}

fn moves(grace: u64) -> RotationLoop {
    let spec = RotationSpec::new(
        "127.0.0.1",
        PortRange::new(10000, 60000),
        8,
        Duration::from_secs(60),
        Duration::from_secs(grace),
    )
    .unwrap();
    RotationLoop::new(&spec)
}

/// One whole move to a port that comes to answer.
fn rotate(l: &mut RotationLoop, port: u16) -> Vec<RotationEvent> {
    let mut all = Vec::new();
    for input in [
        RotationInput::Wake,
        RotationInput::Bound(port),
        RotationInput::Adopted(true),
        RotationInput::Told,
    ] {
        all.extend(l.step(input).0);
    }
    all
}

#[test]
fn loop_emits_rotated_on_successful_bind() {
    let mut l = moves(0);
    assert_eq!(l.pending(), RotationAction::Wait(Duration::from_secs(60)));
    assert_eq!(
        rotate(&mut l, 42424),
        vec![RotationEvent::Rotated { new_port: 42424 }, RotationEvent::RetireOld]
    );
    assert_eq!(
        rotate(&mut l, 42425),
        vec![RotationEvent::Rotated { new_port: 42425 }, RotationEvent::RetireOld]
    );
    assert_eq!(l.pending(), RotationAction::Wait(Duration::from_secs(60)));
}

#[test]
fn loop_emits_bind_failed_on_collision() {
    let mut l = moves(0);
    assert_eq!(l.step(RotationInput::Wake).1, RotationAction::Bind);
    let (events, next) = l.step(RotationInput::BindError(TransportError::Io(IoError {
        kind: IoErrorKind::AddrInUse,
        message: "test".to_string(),
    })));
    assert_eq!(
        events,
        vec![RotationEvent::BindFailed { reason: "io error: test".to_string() }]
    );
    assert_eq!(next, RotationAction::Wait(Duration::from_secs(60)));
}

#[test]
fn loop_emits_shutdown_when_signalled() {
    let mut l = moves(0);
    let (events, next) = l.step(RotationInput::Stop);
    assert_eq!(events, vec![RotationEvent::Shutdown]);
    assert_eq!(next, RotationAction::Stop);
    assert!(l.step(RotationInput::Wake).0.is_empty());
    assert_eq!(l.phase, RotationPhase::Stopped);
}

#[test]
fn grace_delays_retiring_the_old_listener_not_the_new_port() {
    let mut l = moves(30);
    assert_eq!(l.step(RotationInput::Wake).1, RotationAction::Bind);
    assert_eq!(l.step(RotationInput::Bound(50000)).1, RotationAction::Adopt(50000));
    assert_eq!(l.step(RotationInput::Adopted(true)).1, RotationAction::Broadcast(50000));
    let (events, next) = l.step(RotationInput::Told);
    assert_eq!(events, vec![RotationEvent::Rotated { new_port: 50000 }]);
    assert_eq!(next, RotationAction::Wait(Duration::from_secs(30)));
    let (events, next) = l.step(RotationInput::Wake);
    assert_eq!(events, vec![RotationEvent::RetireOld]);
    assert_eq!(next, RotationAction::Wait(Duration::from_secs(60)));
}

#[test]
fn a_stop_in_the_grace_retires_nothing() {
    let mut l = moves(30);
    rotate(&mut l, 50000);
    assert_eq!(l.step(RotationInput::Stop).0, vec![RotationEvent::Shutdown]);
}

#[test]
fn a_port_the_caller_could_not_take_is_never_broadcast() {
    let mut l = moves(0);
    l.step(RotationInput::Wake);
    l.step(RotationInput::Bound(50000));
    let (events, next) = l.step(RotationInput::Adopted(false));
    assert_eq!(
        events,
        vec![RotationEvent::AdoptFailed {
            reason: "caller did not come up on port 50000".to_string()
        }]
    );
    assert_eq!(next, RotationAction::Wait(Duration::from_secs(60)));
    assert_eq!(
        rotate(&mut l, 50001)[0],
        RotationEvent::Rotated { new_port: 50001 }
    );
}
