use veil::clock::unix_now_secs;
use veil::session::ticket::{
    SessionTicket, TicketIssuer, TicketKey, INTERACTIVE_SKEW_SECS, MAX_CONSUMED_TICKETS,
    PLAINTEXT_SIZE, SESSION_TICKET_ENCRYPTED_SIZE, SESSION_TICKET_TTL_SECS,
    TICKET_KEY_ROTATION_SECS,
};

fn make_issuer() -> TicketIssuer {
    TicketIssuer::new(TicketKey::from_bytes([0xAB; 32]))
}

#[test]
fn roundtrip_encrypt_decrypt() {
    let mut issuer = make_issuer();
    let session_id = [1u8; 32];
    let peer_id = [2u8; 32];
    let tx_key = [3u8; 32];
    let rx_key = [4u8; 32];

    let blob = issuer.issue(session_id, peer_id, tx_key, rx_key);
    assert_eq!(blob.len(), SESSION_TICKET_ENCRYPTED_SIZE);

    let ticket = issuer.decrypt(&blob).expect("decrypt should succeed");
    assert_eq!(ticket.session_id, session_id);
    assert_eq!(ticket.peer_id, peer_id);
    assert_eq!(ticket.tx_key, tx_key);
    assert_eq!(ticket.rx_key, rx_key);
    assert_eq!(ticket.peer_instance_id, [0u8; 16]);
    assert!(ticket.valid_until > ticket.issued_at);
    assert_eq!(
        ticket.valid_until,
        ticket.issued_at + SESSION_TICKET_TTL_SECS
    );
}

#[test]
fn a_ticket_issued_before_rotation_still_resumes_after_it() {
    let mut issuer = make_issuer();
    let blob = issuer.issue([1; 32], [2; 32], [3; 32], [4; 32]);

    issuer.rotate(TicketKey::from_bytes([0x11; 32]));

    assert!(issuer.has_previous_key());
    let ticket = issuer
        .decrypt(&blob)
        .expect("the overlap window is what keeps a live ticket usable");
    assert_eq!(ticket.session_id, [1; 32]);
}

#[test]
fn a_key_two_rotations_old_can_no_longer_read_its_tickets() {
    let mut issuer = make_issuer();
    let blob = issuer.issue([1; 32], [2; 32], [3; 32], [4; 32]);

    issuer.rotate(TicketKey::from_bytes([0x11; 32]));
    issuer.rotate(TicketKey::from_bytes([0x22; 32]));

    assert!(
        issuer.decrypt(&blob).is_none(),
        "a key displaced out of the previous slot must be gone, not merely unused",
    );
}

#[test]
fn rotation_issues_under_the_new_key_only() {
    let mut issuer = make_issuer();
    issuer.rotate(TicketKey::from_bytes([0x11; 32]));
    let blob = issuer.issue([9; 32], [8; 32], [7; 32], [6; 32]);

    let mut old_only = make_issuer();
    assert!(old_only.decrypt(&blob).is_none());

    let mut new_only = TicketIssuer::new(TicketKey::from_bytes([0x11; 32]));
    assert!(new_only.decrypt(&blob).is_some());
}

#[test]
fn a_ticket_spent_before_rotation_cannot_be_replayed_after_it() {
    let mut issuer = make_issuer();
    let blob = issuer.issue([1; 32], [2; 32], [3; 32], [4; 32]);
    assert!(issuer.decrypt(&blob).is_some(), "first use consumes it");

    issuer.rotate(TicketKey::from_bytes([0x11; 32]));

    assert!(
        issuer.decrypt(&blob).is_none(),
        "rotation must not resurrect a consumed ticket",
    );
}

#[test]
fn wrong_key_fails_to_decrypt() {
    let issuer_a = make_issuer();
    let mut issuer_b = TicketIssuer::new(TicketKey::from_bytes([0xCD; 32]));

    let blob = issuer_a.issue([0; 32], [0; 32], [0; 32], [0; 32]);
    assert!(
        issuer_b.decrypt(&blob).is_none(),
        "different key must not decrypt"
    );
}

#[test]
fn tampered_blob_fails_to_decrypt() {
    let mut issuer = make_issuer();
    let mut blob = issuer.issue([1; 32], [2; 32], [3; 32], [4; 32]);
    blob[20] ^= 0xFF;
    assert!(
        issuer.decrypt(&blob).is_none(),
        "tampered blob must fail AEAD"
    );
}

#[test]
fn short_blob_returns_none() {
    let mut issuer = make_issuer();
    assert!(issuer.decrypt(&[0u8; 10]).is_none());
}

fn past_ticket() -> SessionTicket {
    SessionTicket {
        session_id: [1; 32],
        peer_id: [2; 32],
        tx_key: [3; 32],
        rx_key: [4; 32],
        issued_at: 0,
        valid_until: 1,
        peer_instance_id: [0u8; 16],
    }
}

#[test]
fn expired_ticket_is_rejected() {
    let mut issuer = make_issuer();
    let blob = issuer.encrypt(&past_ticket());
    assert!(
        issuer.decrypt(&blob).is_none(),
        "expired ticket must be rejected"
    );
}

#[test]
fn issue_for_instance_binds_instance_id_through_roundtrip() {
    let mut issuer = make_issuer();
    let inst: [u8; 16] = [0xAB; 16];
    let blob = issuer.issue_for_instance([5u8; 32], [6u8; 32], inst, [7u8; 32], [8u8; 32]);
    assert_eq!(blob.len(), SESSION_TICKET_ENCRYPTED_SIZE);
    let ticket = issuer.decrypt(&blob).expect("decrypt");
    assert_eq!(ticket.peer_instance_id, inst);
}

#[test]
fn phase647_c2_ticket_replay_rejected() {
    let mut issuer = make_issuer();
    let blob = issuer.issue([1; 32], [2; 32], [3; 32], [4; 32]);
    let t1 = issuer.decrypt(&blob).expect("first decrypt OK");
    assert_eq!(t1.peer_id, [2; 32]);
    assert!(
        issuer.decrypt(&blob).is_none(),
        "captured ticket must not replay"
    );
    assert_eq!(issuer.consumed_tickets_len(), 1);
}

#[test]
fn phase647_c2_distinct_tickets_each_decrypt_independently() {
    let mut issuer = make_issuer();
    let blob_a = issuer.issue([1; 32], [2; 32], [3; 32], [4; 32]);
    let blob_b = issuer.issue([1; 32], [2; 32], [3; 32], [4; 32]);
    assert_ne!(&blob_a[0..12], &blob_b[0..12], "nonces must differ");
    assert!(issuer.decrypt(&blob_a).is_some());
    assert!(issuer.decrypt(&blob_b).is_some());
    assert_eq!(issuer.consumed_tickets_len(), 2);
}

#[test]
fn phase647_c2_expired_entries_gced_lazily() {
    let mut issuer = make_issuer();
    let expired_blob = issuer.encrypt(&past_ticket());
    issuer.remember_consumed(&[0xAA; 12], 1u64);
    assert_eq!(issuer.consumed_tickets_len(), 1);
    let fresh = issuer.issue([5; 32], [6; 32], [7; 32], [8; 32]);
    let _ = issuer.decrypt(&fresh).unwrap();
    assert_eq!(issuer.consumed_tickets_len(), 1);
    let _ = expired_blob;
}

#[test]
fn phase647_c2_cache_cap_enforces_max() {
    let mut issuer = make_issuer();
    let now = unix_now_secs();
    for i in 0..MAX_CONSUMED_TICKETS {
        let mut nonce = [0u8; 12];
        nonce[0..4].copy_from_slice(&(i as u32).to_be_bytes());
        issuer.remember_consumed(&nonce, now + SESSION_TICKET_TTL_SECS);
    }
    assert_eq!(issuer.consumed_tickets_len(), MAX_CONSUMED_TICKETS);
    let blob = issuer.issue([1; 32], [2; 32], [3; 32], [4; 32]);
    let _ = issuer.decrypt(&blob).unwrap();
    assert_eq!(
        issuer.consumed_tickets_len(),
        MAX_CONSUMED_TICKETS,
        "cache must stay at MAX_CONSUMED_TICKETS after eviction"
    );
}

#[test]
fn etap6_slice6e_generate_path_round_trips() {
    let mut issuer = TicketIssuer::new(TicketKey::generate());
    let session_id = [0x11u8; 32];
    let peer_id = [0x22u8; 32];
    let tx_key = [0x33u8; 32];
    let rx_key = [0x44u8; 32];

    let blob = issuer.issue(session_id, peer_id, tx_key, rx_key);
    let ticket = issuer.decrypt(&blob).expect("decrypt OsRng-generated key");
    assert_eq!(ticket.session_id, session_id);
    assert_eq!(ticket.tx_key, tx_key);
    assert_eq!(ticket.rx_key, rx_key);
}

#[test]
fn etap6_slice6e_distinct_keys_are_independent() {
    let issuer_a = TicketIssuer::new(TicketKey::from_bytes([0xA1; 32]));
    let mut issuer_b = TicketIssuer::new(TicketKey::from_bytes([0xB2; 32]));

    let blob = issuer_a.issue([1; 32], [2; 32], [3; 32], [4; 32]);
    assert!(
        issuer_b.decrypt(&blob).is_none(),
        "blob encrypted with key_a must not decrypt under key_b"
    );
}

#[test]
fn ticket_fields_stand_in_order() {
    let t = SessionTicket {
        session_id: [1; 32],
        peer_id: [2; 32],
        tx_key: [3; 32],
        rx_key: [4; 32],
        issued_at: 5,
        valid_until: 6,
        peer_instance_id: [7; 16],
    };
    let v = t.encode();
    assert_eq!(v.len(), PLAINTEXT_SIZE);
    let back = SessionTicket::decode(&v).expect("decodes");
    assert_eq!(back.session_id, [1; 32]);
    assert_eq!(back.peer_id, [2; 32]);
    assert_eq!(back.tx_key, [3; 32]);
    assert_eq!(back.rx_key, [4; 32]);
    assert_eq!((back.issued_at, back.valid_until), (5, 6));
    assert_eq!(back.peer_instance_id, [7; 16]);
    assert!(SessionTicket::decode(&v[1..]).is_none());
}

#[test]
fn a_ticket_lives_for_its_lifetime_and_the_skew() {
    let t = TicketIssuer::ticket_at(1_000_000, [1; 32], [2; 32], [9; 16], [3; 32], [4; 32]);
    assert_eq!(t.issued_at, 1_000_000);
    assert_eq!(t.valid_until, 1_000_000 + SESSION_TICKET_TTL_SECS);
    assert!(TICKET_KEY_ROTATION_SECS >= SESSION_TICKET_TTL_SECS);

    let blob = make_issuer().encrypt_with_nonce(&t, &[1; 12]);
    assert!(make_issuer().decrypt_at(&blob, t.valid_until).is_some());
    let last = t.valid_until + INTERACTIVE_SKEW_SECS;
    assert!(make_issuer().decrypt_at(&blob, last + 1).is_none());
}

#[test]
fn a_fresh_rotation_draws_a_key_that_nobody_had() {
    let mut issuer = make_issuer();
    assert!(!issuer.has_previous_key());
    issuer.rotate_fresh();
    assert!(issuer.has_previous_key());
    let blob = issuer.issue([1; 32], [2; 32], [3; 32], [4; 32]);
    assert!(make_issuer().decrypt(&blob).is_none());
    assert!(issuer.decrypt(&blob).is_some());
}

#[test]
fn the_clock_is_past_the_year_of_writing() {
    assert!(unix_now_secs() > 1_700_000_000);
}

#[test]
fn a_ticket_is_good_for_one_redemption() {
    let mut issuer = make_issuer();
    let t = TicketIssuer::ticket_at(1_000_000, [1; 32], [2; 32], [9; 16], [3; 32], [4; 32]);
    let blob = issuer.encrypt_with_nonce(&t, &[1; 12]);
    let other = issuer.encrypt_with_nonce(&t, &[2; 12]);
    assert_eq!(issuer.decrypt_at(&blob, 1_000_005), Some(t));
    assert_eq!(issuer.decrypt_at(&blob, 1_000_006), None);
    assert_eq!(issuer.decrypt_at(&other, 1_000_007), Some(t));
    issuer.rotate(TicketKey::from_bytes([0x11; 32]));
    assert_eq!(issuer.decrypt_at(&blob, 1_000_008), None);
    assert_eq!(issuer.decrypt_at(&blob, t.valid_until + 1), None);
    issuer.rotate(TicketKey::from_bytes([0x22; 32]));
    assert_eq!(issuer.decrypt_at(&blob, t.valid_until + 2), None);
}

#[test]
fn refused_tickets_are_not_spent() {
    let mut issuer = make_issuer();
    let t = TicketIssuer::ticket_at(1_000_000, [1; 32], [2; 32], [9; 16], [3; 32], [4; 32]);
    let blob = issuer.encrypt_with_nonce(&t, &[1; 12]);
    let mut longer = blob.clone();
    longer.push(0);
    let mut flipped = blob.clone();
    flipped[100] ^= 1;
    assert_eq!(issuer.decrypt_at(&longer, 1_000_000), None);
    assert_eq!(issuer.decrypt_at(&blob[..187], 1_000_000), None);
    assert_eq!(issuer.decrypt_at(&flipped, 1_000_000), None);
    assert_eq!(issuer.decrypt_at(&blob, t.valid_until + 1), None);
    assert_eq!(issuer.consumed_tickets_len(), 0);
    assert_eq!(issuer.decrypt_at(&blob, 1_000_000), Some(t));
}
