use veil::transport::ephemeral::{
    BindEvent, BindStep, PortRange, RandomBind, DEFAULT_BIND_RETRIES,
};
use veil::transport::error::{IoError, IoErrorKind};

fn taken() -> BindEvent {
    BindEvent::Failed(IoError { kind: IoErrorKind::AddrInUse, message: "taken".to_string() })
}

#[test]
fn bind_random_succeeds_wide_range() {
    let mut b = RandomBind::new(PortRange::new(30000, 60000), DEFAULT_BIND_RETRIES).unwrap();
    assert_eq!(b.range(), PortRange::new(30000, 60000));
    let BindStep::Try(port) = b.advance() else {
        panic!("an attempt is made");
    };
    assert!((30000..=60000).contains(&port), "port {port} not in range");
    assert!(matches!(b.step(BindEvent::Bound), BindStep::Use(p) if p == port));
}

#[test]
fn bind_random_rejects_invalid_range() {
    let err = match RandomBind::new(PortRange::new(50000, 10000), 64) {
        Ok(_) => panic!("invalid range must error"),
        Err(e) => e,
    };
    assert!(err.message().contains("invalid"));
    assert_eq!(
        err.message(),
        "unsupported transport operation: ephemeral port range invalid: 50000..=10000"
    );
}

#[test]
fn bind_random_single_port_range() {
    let mut b = RandomBind::new(PortRange::new(4711, 4711), 5).unwrap();
    let mut attempts = 0;
    let mut step = b.advance();
    loop {
        match step {
            BindStep::Try(p) => {
                assert_eq!(p, 4711);
                attempts += 1;
                step = b.step(taken());
            }
            BindStep::Use(_) => panic!("nothing was bound"),
            BindStep::Fail(e) => {
                assert_eq!(e.message(), "io error: taken");
                break;
            }
        }
    }
    assert_eq!(attempts, 6, "one attempt and five further ones");
}

#[test]
fn bind_random_diversity() {
    let mut b = RandomBind::new(PortRange::new(1, u16::MAX), 64).unwrap();
    let mut ports = Vec::new();
    let mut step = b.advance();
    while let BindStep::Try(p) = step {
        ports.push(p);
        step = b.step(taken());
    }
    assert_eq!(ports.len(), 65);
    assert!(ports.iter().any(|p| *p != ports[0]));
}

#[test]
fn bind_random_zero_retries_single_shot() {
    let mut b = RandomBind::new(PortRange::new(4711, 4711), 0).unwrap();
    assert!(matches!(b.advance(), BindStep::Try(4711)));
    assert!(matches!(b.step(taken()), BindStep::Fail(_)));
}

#[test]
fn other_failures_end_the_attempts_at_once() {
    let mut b = RandomBind::new(PortRange::new(4711, 4711), 64).unwrap();
    b.advance_with(4711);
    let denied = IoError { kind: IoErrorKind::Other, message: "denied".to_string() };
    match b.step(BindEvent::Failed(denied)) {
        BindStep::Fail(e) => assert_eq!(e.message(), "io error: denied"),
        _ => panic!("expected the failure itself"),
    }
}

#[test]
fn settling_asks_for_another_attempt_only_when_the_port_is_taken() {
    let mut b = RandomBind::new(PortRange::new(1, 2), 1).unwrap();
    assert!(matches!(b.advance_with(2), BindStep::Try(2)));
    assert!(b.settle(taken()).is_none());
    assert!(matches!(b.advance_with(1), BindStep::Try(1)));
    assert!(matches!(b.settle(BindEvent::Bound), Some(BindStep::Use(1))));
}
