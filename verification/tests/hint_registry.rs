use veil::transport::hint_registry::{SchemeCounters, TransportHintRegistry, DEFAULT_SAMPLE_CAP};

#[test]
fn empty_registry_returns_empty_snapshot() {
    let reg = TransportHintRegistry::new();
    assert!(reg.ranked_snapshot().is_empty());
    assert!(TransportHintRegistry::default().ranked_snapshot().is_empty());
    assert_eq!(DEFAULT_SAMPLE_CAP, 1024);
}

#[test]
fn success_rate_computed_correctly() {
    let mut reg = TransportHintRegistry::new();
    for _ in 0..9 {
        reg.record("tcp", true);
    }
    reg.record("tcp", false);
    let snap = reg.ranked_snapshot();
    assert_eq!(snap.len(), 1);
    assert_eq!(snap[0].0, "tcp");
    assert_eq!(snap[0].1.success_pct(), 90);
    assert_eq!(snap[0].1.total(), 10);
}

#[test]
fn snapshot_orders_by_success_rate_then_sample_count() {
    let mut reg = TransportHintRegistry::new();
    for _ in 0..8 {
        reg.record("tcp", true);
    }
    for _ in 0..2 {
        reg.record("tcp", false);
    }
    reg.record("quic", true);
    for _ in 0..16 {
        reg.record("tls", true);
    }
    for _ in 0..4 {
        reg.record("tls", false);
    }

    let snap = reg.ranked_snapshot();
    assert_eq!(snap[0].0, "quic");
    assert_eq!(snap[1].0, "tls");
    assert_eq!(snap[2].0, "tcp");
}

#[test]
fn schemes_with_no_data_are_omitted() {
    let mut reg = TransportHintRegistry::new();
    reg.record("tcp", true);
    let snap = reg.ranked_snapshot();
    assert_eq!(snap.len(), 1);
    assert_eq!(snap[0].0, "tcp");
}

#[test]
fn sample_cap_decays_old_observations() {
    let mut reg = TransportHintRegistry::with_sample_cap(8);
    for _ in 0..8 {
        reg.record("tcp", true);
    }
    let snap = reg.ranked_snapshot();
    assert_eq!(snap[0].1.success, 8);
    assert_eq!(snap[0].1.failure, 0);

    reg.record("tcp", false);
    let snap = reg.ranked_snapshot();
    assert_eq!(snap[0].1.success, 4);
    assert_eq!(snap[0].1.failure, 1);
    assert_eq!(snap[0].1.success_pct(), 80);
}

#[test]
fn equal_schemes_stand_in_the_order_of_their_names() {
    let mut reg = TransportHintRegistry::new();
    for name in ["wss", "ws", "obfs4-tcp", "tcp"] {
        reg.record(name, true);
    }
    let names: Vec<String> = reg.ranked_snapshot().into_iter().map(|e| e.0).collect();
    assert_eq!(names, vec!["obfs4-tcp", "tcp", "ws", "wss"]);
}

#[test]
fn percentages_round_down_and_totals_saturate() {
    let c = SchemeCounters { success: 2, failure: 1 };
    assert_eq!(c.success_pct(), 66);
    assert_eq!(SchemeCounters::default().success_pct(), 0);
    let full = SchemeCounters { success: u32::MAX, failure: u32::MAX };
    assert_eq!(full.total(), u32::MAX);
    assert_eq!(full.success_pct(), 100);
}
