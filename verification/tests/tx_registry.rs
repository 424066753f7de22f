use veil::session::tx_registry::{SessionTxRegistry, AVG_FRAME_BYTES, INTERACTIVE};

#[test]
fn register_and_send() {
    let mut reg = SessionTxRegistry::new();
    let peer = [1u8; 32];
    let id = reg.register(&peer, 0);

    reg.send_to_all(b"hello");

    let got = reg.drain(&peer, id);
    assert_eq!(got.frames, vec![(INTERACTIVE, b"hello".to_vec())]);
    assert!(!got.disconnected);
}

#[test]
fn closed_receiver_pruned_on_register() {
    let mut reg = SessionTxRegistry::new();
    let peer = [2u8; 32];
    let id = reg.register(&peer, 0);
    reg.close(&peer, id);
    reg.send_to_all(b"probe");
    assert_eq!(reg.len(), 1);
    let _ = reg.register(&[99u8; 32], 1);
    assert_eq!(reg.len(), 1, "registering a fresh peer prunes [2u8;32]");
}

#[test]
fn unregister_removes_entry() {
    let mut reg = SessionTxRegistry::new();
    let peer = [3u8; 32];
    let _ = reg.register(&peer, 0);
    assert_eq!(reg.len(), 1);
    reg.unregister(&peer);
    assert_eq!(reg.len(), 0);
}

#[test]
fn last_active_updated_by_send_under_shared_self() {
    let mut reg = SessionTxRegistry::new();
    let peer_a = [10u8; 32];
    let peer_b = [11u8; 32];
    let _ = reg.register(&peer_a, 5);
    let _ = reg.register(&peer_b, 5);
    assert!(reg.send_to_arc(&peer_b, INTERACTIVE, b"x", 7));
    let evicted = reg.evict_lru(1);
    assert_eq!(evicted, 1);
    assert!(!reg.has_session(&peer_a), "older peer A evicted");
    assert!(reg.has_session(&peer_b), "recently-active peer B retained");
}

#[test]
fn a_full_queue_drops_and_counts() {
    let mut reg = SessionTxRegistry::with_capacity(1);
    let peer = [1u8; 32];
    let id = reg.register(&peer, 0);
    assert!(reg.send_to(&peer, 2, vec![1], 1));
    assert!(!reg.send_to(&peer, 2, vec![2], 1));
    assert_eq!(reg.drops_total(), 1);
    assert_eq!(reg.total_queued(), 1);
    assert_eq!(reg.drain(&peer, id).frames, vec![(2u8, vec![1u8])]);
    assert_eq!(reg.total_queued(), 0);
}

#[test]
fn a_broadcast_leaves_one_peer_out() {
    let mut reg = SessionTxRegistry::new();
    let (a, b) = ([1u8; 32], [2u8; 32]);
    let ia = reg.register(&a, 0);
    let ib = reg.register(&b, 0);
    reg.send_to_all_except(&a, b"news");
    assert!(reg.drain(&a, ia).frames.is_empty());
    assert_eq!(reg.drain(&b, ib).frames, vec![(INTERACTIVE, b"news".to_vec())]);
}

#[test]
fn a_live_session_keeps_its_place() {
    let mut reg = SessionTxRegistry::new();
    let peer = [1u8; 32];
    let id = reg.try_register_unique(&peer, 0).expect("first comes in");
    assert!(reg.try_register_unique(&peer, 0).is_none());
    reg.close(&peer, id);
    assert!(reg.try_register_unique(&peer, 0).is_some());
}

#[test]
fn both_ends_keep_the_same_connection() {
    let (low, high) = ([1u8; 32], [2u8; 32]);
    let keeps = |local: [u8; 32], peer: [u8; 32], outbound: bool| {
        SessionTxRegistry::new()
            .try_register_directional(&peer, &local, outbound, 0)
            .is_some()
    };
    assert!(keeps(low, high, true) && keeps(high, low, false));
    assert!(!keeps(low, high, false) && !keeps(high, low, true));

    let mut reg = SessionTxRegistry::new();
    assert!(reg.try_register_directional(&high, &low, true, 0).is_some());
    assert!(reg.try_register_directional(&high, &low, true, 0).is_none());
}

#[test]
fn a_replaced_session_reads_as_gone() {
    let mut reg = SessionTxRegistry::new();
    let peer = [1u8; 32];
    let first = reg.register(&peer, 0);
    let second = reg.register(&peer, 0);
    assert_ne!(first, second);
    assert!(reg.drain(&peer, first).disconnected);
    assert!(!reg.drain(&peer, second).disconnected);
}

#[test]
fn memory_is_estimated_from_capacity() {
    let mut reg = SessionTxRegistry::with_capacity(3);
    assert!(reg.is_empty());
    assert_eq!(reg.estimated_memory(), 0);
    let _ = reg.register(&[1u8; 32], 0);
    let _ = reg.register(&[2u8; 32], 0);
    assert_eq!(reg.estimated_memory(), 2 * 3 * AVG_FRAME_BYTES);
    assert_eq!(reg.peer_ids().len(), 2);
    assert_eq!(reg.active_node_ids().len(), 2);
    assert!(reg.get_sender(&[1u8; 32]).is_some());
}

#[test]
fn ended_sessions_are_pruned_on_demand() {
    let mut reg = SessionTxRegistry::with_capacity_and_drop_counter(4, 9);
    assert_eq!(reg.drops_total(), 9);
    let id = reg.register(&[1u8; 32], 0);
    let _ = reg.register(&[2u8; 32], 0);
    reg.close(&[1u8; 32], id);
    assert_eq!(reg.prune_closed_external(), 1);
    assert_eq!(reg.len(), 1);
}

#[test]
fn a_broadcast_carries_its_priority() {
    let mut reg = SessionTxRegistry::new();
    let (a, b) = ([1u8; 32], [2u8; 32]);
    let ida = reg.register(&a, 0);
    let idb = reg.register(&b, 0);

    reg.send_to_all_with_priority(3, b"slow");
    reg.send_to_all_except_with_priority(&b, 0, b"fast");

    assert_eq!(reg.drain(&a, ida).frames, vec![(3, b"slow".to_vec()), (0, b"fast".to_vec())]);
    assert_eq!(reg.drain(&b, idb).frames, vec![(3, b"slow".to_vec())]);
}

#[test]
fn a_session_that_leaves_takes_the_ended_ones_along() {
    let mut reg = SessionTxRegistry::new();
    let id = reg.register(&[1u8; 32], 0);
    let _ = reg.register(&[2u8; 32], 0);
    reg.close(&[1u8; 32], id);
    assert_eq!(reg.len(), 2);
    reg.unregister(&[2u8; 32]);
    assert_eq!(reg.len(), 0);
}

#[test]
fn the_count_of_drops_begins_again() {
    let mut reg = SessionTxRegistry::with_capacity_and_drop_counter(1, u64::MAX);
    let _ = reg.register(&[1u8; 32], 0);
    assert!(reg.send_to(&[1u8; 32], 2, vec![1], 1));
    assert!(!reg.send_to(&[1u8; 32], 2, vec![2], 1));
    assert_eq!(reg.drops_total(), 0);
    reg.send_to_all(b"x");
    assert_eq!(reg.drops_total(), 1);
}
