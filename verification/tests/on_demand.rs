use veil::time::{Duration, Instant};
use veil::transport::ephemeral::PortRange;
use veil::transport::on_demand::{open_slot, OnDemandConfig, OnDemandLifecycle};

fn now() -> Instant {
    Instant::at(Duration::from_secs(1000))
}

fn after(millis: u64) -> Instant {
    Instant::at(Duration::from_millis(1_000_000 + millis))
}

fn cfg(ttl: Duration, max_accepts: usize) -> OnDemandConfig {
    OnDemandConfig {
        host: "127.0.0.1".to_owned(),
        port_range: PortRange::new(30000, 60000),
        bind_retries: 64,
        ttl,
        max_accepts,
    }
}

fn make_lifecycle(ttl: Duration, max_accepts: usize) -> OnDemandLifecycle {
    OnDemandLifecycle::new(now(), ttl, max_accepts)
}

#[test]
fn bind_rejects_zero_ttl() {
    let err = cfg(Duration::from_secs(0), 1).validate().unwrap_err();
    assert!(err.message().contains("ttl must be > 0"));
}

#[test]
fn bind_rejects_zero_max_accepts() {
    let err = cfg(Duration::from_secs(60), 0).validate().unwrap_err();
    assert!(err.message().contains("max_accepts must be > 0"));
}

#[test]
fn bind_happy_path_returns_port_in_range() {
    let c = cfg(Duration::from_secs(60), 1);
    assert!(c.validate().is_ok());
    let slot = open_slot(c, 31000, now());
    assert_eq!(slot.port, 31000);
    assert_eq!(slot.host, "127.0.0.1");
    assert_eq!(slot.lifecycle.accepts_remaining(), 1);
    assert_eq!(slot.lifecycle.expires_at(), after(60_000));
}

#[test]
fn note_accept_decrements_counter() {
    let mut l = make_lifecycle(Duration::from_secs(60), 3);
    assert_eq!(l.note_accept(), 3);
    assert_eq!(l.accepts_remaining(), 2);
    assert_eq!(l.note_accept(), 2);
    assert_eq!(l.accepts_remaining(), 1);
    assert_eq!(l.note_accept(), 1);
    assert_eq!(l.accepts_remaining(), 0);
}

#[test]
fn note_accept_after_exhaustion_returns_zero() {
    let mut l = make_lifecycle(Duration::from_secs(60), 1);
    assert_eq!(l.note_accept(), 1);
    assert_eq!(l.note_accept(), 0);
    assert_eq!(l.note_accept(), 0);
    assert_eq!(l.accepts_remaining(), 0);
}

#[test]
fn exactly_the_budget_is_granted() {
    let mut l = make_lifecycle(Duration::from_secs(60), 8);
    let granted = (0..16).filter(|_| l.note_accept() > 0).count();
    assert_eq!(granted, 8, "exactly 8 grants for a budget of 8");
    assert_eq!(l.accepts_remaining(), 0);
}

#[test]
fn should_exit_false_before_ttl_with_budget() {
    let l = make_lifecycle(Duration::from_secs(60), 1);
    assert!(!l.should_exit(now()));
}

#[test]
fn should_exit_true_when_accepts_exhausted() {
    let mut l = make_lifecycle(Duration::from_secs(60), 1);
    l.note_accept();
    assert!(l.should_exit(now()));
}

#[test]
fn should_exit_true_after_ttl() {
    let l = make_lifecycle(Duration::from_millis(10), 1);
    assert!(!l.should_exit(after(9)));
    assert!(l.should_exit(after(10)));
    assert!(l.should_exit(after(50)));
}

#[test]
fn should_exit_true_after_explicit_shutdown() {
    let mut l = make_lifecycle(Duration::from_secs(60), 1);
    assert!(!l.should_exit(now()));
    l.shutdown();
    assert!(l.should_exit(now()));
}

#[test]
fn shutdown_is_idempotent() {
    let mut l = make_lifecycle(Duration::from_secs(60), 1);
    l.shutdown();
    l.shutdown();
    l.shutdown();
    assert!(l.should_exit(now()));
    assert_eq!(l.accepts_remaining(), 1);
}

#[test]
fn canonical_accept_loop_exits_when_budget_spent() {
    let mut l = make_lifecycle(Duration::from_secs(60), 2);
    let mut accepts = 0;
    loop {
        if l.should_exit(now()) {
            break;
        }
        let prev = l.note_accept();
        if prev == 0 {
            break;
        }
        accepts += 1;
        if prev == 1 {
            break;
        }
    }
    assert_eq!(accepts, 2);
    assert_eq!(l.accepts_remaining(), 0);
    assert!(l.should_exit(now()));
}

#[test]
fn canonical_accept_loop_exits_on_ttl() {
    let l = make_lifecycle(Duration::from_millis(30), 100);
    assert!(l.should_exit(after(60)));
    assert_eq!(l.accepts_remaining(), 100);
}

#[test]
fn lifecycle_exposes_expiry_and_remaining() {
    let mut l = make_lifecycle(Duration::from_secs(60), 5);
    assert!(l.expires_at() > now());
    assert_eq!(l.accepts_remaining(), 5);
    l.note_accept();
    assert_eq!(l.accepts_remaining(), 4);
}
