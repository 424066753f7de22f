use veil::session::cipher::SessionCipher;
use veil::session::frame::{build_frame, frame_aad, HEADER_SIZE};
use veil::session::messages::{FrameFamily, SessionMsg};
use veil::session::mlkem::{
    handle_mlkem_rekey_ack_arm, handle_mlkem_rekey_ek_arm, mlkem_rekey_due, start_mlkem_rekey,
    MlKemRekeyContext, MLKEM_EK_LEN,
};
use veil::session::peers::BoundedPeerMap;
use veil::session::rekey::{
    ArmOutcome, CryptoState, DecryptFailure, DecryptInPlaceOutcome, RekeyConfig, RekeyContext,
    RekeyRxGraceBuffer, RekeyTrigger, SessionKeys, NONCE_REKEY_WATERMARK, REKEY_ACK_TIMEOUT_SECS,
    REKEY_RX_GRACE_SECS, REKEY_RX_PREV_CAP,
};
use veil::session::rekey_arms::{
    begin_rekey_ack, finish_rekey_ack, handle_rekey_init_arm, handle_rekey_kept_init_arm,
    rekey_init_exchange, start_x25519_rekey, x25519_rekey_due, RekeyExchange,
};
use veil::session::resumption::{
    handle_ticket_arm, send_pending_session_ticket, ClientTicketEntry,
};
use veil::session::ticket::SESSION_TICKET_ENCRYPTED_SIZE;
use veil::session::tx_registry::INTERACTIVE;
use veil::session::wire::WireOutbox;
use veil::time::{Duration, Instant};

fn at(secs: u64) -> Instant {
    Instant::at(Duration::from_secs(secs))
}

fn sealed_state(tx: u8, rx: u8) -> CryptoState {
    CryptoState {
        tx_cipher: Some(SessionCipher::new(&[tx; 32])),
        rx_cipher: Some(SessionCipher::new(&[rx; 32])),
    }
}

fn plain_state() -> CryptoState {
    CryptoState { tx_cipher: None, rx_cipher: None }
}

fn keys(tx: u8, rx: u8, id: u8) -> SessionKeys {
    SessionKeys { tx_key: [tx; 32], rx_key: [rx; 32], session_id: [id; 32] }
}

fn context() -> RekeyContext<u32> {
    RekeyContext::new(RekeyConfig { bytes_threshold: 1000, time_threshold_secs: 100 }, at(0))
}

const SMALL: [u8; 32] = [1; 32];
const LARGE: [u8; 32] = [2; 32];

#[test]
fn a_rekey_starts_by_volume_time_or_counter() {
    let mut c = context();
    assert_eq!(c.should_initiate_rekey(at(99), false), None);
    assert_eq!(c.should_initiate_rekey(at(100), false), Some(RekeyTrigger::Time));
    assert_eq!(c.should_initiate_rekey(at(1), true), Some(RekeyTrigger::NonceWatermark));
    c.record_bytes(1000);
    assert_eq!(c.should_initiate_rekey(at(1), false), Some(RekeyTrigger::Bytes));
    c.record_bytes(u64::MAX);
    assert_eq!(c.bytes_since_rekey, u64::MAX);
    c.record_rekey_complete(at(50));
    assert_eq!((c.bytes_since_rekey, c.generation), (0, 1));
    assert_eq!(c.should_initiate_rekey(at(149), false), None);
}

#[test]
fn no_second_rekey_starts_while_one_waits() {
    let mut c = context();
    let crypto = sealed_state(1, 2);
    assert_eq!(
        x25519_rekey_due(&crypto, &[9; 32], &mut c, at(100)),
        Some(RekeyTrigger::Time)
    );
    let (priority, frame) = start_x25519_rekey(&mut c, 7, &[5; 32], at(100));
    assert_eq!(priority, INTERACTIVE);
    assert_eq!(
        frame,
        build_frame(FrameFamily::Session.code(), SessionMsg::RekeyInit.code(), &[5; 32])
    );
    assert!(c.is_awaiting_ack());
    assert_eq!(x25519_rekey_due(&crypto, &[9; 32], &mut c, at(101)), None);
    let late = at(100 + REKEY_ACK_TIMEOUT_SECS);
    assert_eq!(x25519_rekey_due(&crypto, &[9; 32], &mut c, late), Some(RekeyTrigger::Time));
    assert!(!c.is_awaiting_ack(), "the old one was given up");
    assert_eq!(x25519_rekey_due(&crypto, &[0; 32], &mut c, late), None);
    assert_eq!(x25519_rekey_due(&plain_state(), &[9; 32], &mut c, late), None);
}

#[test]
fn a_counter_near_its_end_asks_for_new_keys() {
    let mut c = context();
    let crypto = CryptoState {
        tx_cipher: Some(SessionCipher::new(&[1; 32])),
        rx_cipher: Some(SessionCipher::resumed(&[2; 32], NONCE_REKEY_WATERMARK)),
    };
    assert_eq!(
        x25519_rekey_due(&crypto, &[9; 32], &mut c, at(1)),
        Some(RekeyTrigger::NonceWatermark)
    );
}

#[test]
fn an_init_is_answered_under_the_old_keys_and_switches_after() {
    let mut crypto = sealed_state(1, 2);
    let mut id = [0xAA; 32];
    let mut c = context();
    let mut grace = RekeyRxGraceBuffer::new();
    let mut wire = WireOutbox::new(4, false);
    let body = [6u8; 32];
    assert_eq!(rekey_init_exchange(&crypto, &c, &SMALL, &LARGE, &body), Some(body));
    let exchange = RekeyExchange { our_pubkey: [8; 32], keys: Some(keys(3, 4, 0xBB)) };
    let r = handle_rekey_init_arm(
        &mut crypto, &mut id, &mut c, &mut grace, &SMALL, &LARGE, &body, &Some(exchange),
        &mut wire, at(10),
    );
    assert_eq!(r, ArmOutcome::Continue);
    assert_eq!(id, [0xBB; 32]);
    assert_eq!(grace.entries.len(), 1);
    assert_eq!(c.last_rekey_at, at(10));
    let mut old_rx = SessionCipher::new(&[1; 32]);
    let aad = frame_aad(FrameFamily::Session.code(), SessionMsg::RekeyAck.code());
    assert_eq!(old_rx.open(&wire.writes[0][HEADER_SIZE..], &aad).unwrap(), vec![8; 32]);
    assert_eq!(crypto.tx_cipher.as_ref().unwrap().frames_processed(), 0);
}

#[test]
fn the_smaller_end_keeps_its_own_init() {
    let mut crypto = sealed_state(1, 2);
    let mut id = [0xAA; 32];
    let mut c = context();
    start_x25519_rekey(&mut c, 7, &[5; 32], at(1));
    let mut grace = RekeyRxGraceBuffer::new();
    let mut wire = WireOutbox::new(4, false);
    assert_eq!(rekey_init_exchange(&crypto, &c, &SMALL, &LARGE, &[6; 32]), None);
    let r = handle_rekey_init_arm(
        &mut crypto, &mut id, &mut c, &mut grace, &SMALL, &LARGE, &[6; 32], &None, &mut wire, at(2),
    );
    assert_eq!(r, ArmOutcome::Continue);
    assert!(c.is_awaiting_ack());
    assert_eq!(id, [0xAA; 32]);
    let mut rx = SessionCipher::new(&[1; 32]);
    let aad = frame_aad(FrameFamily::Session.code(), SessionMsg::RekeyKeptInit.code());
    assert!(rx.open(&wire.writes[0][HEADER_SIZE..], &aad).unwrap().is_empty());

    handle_rekey_kept_init_arm(&mut c, at(3));
    assert!(!c.is_awaiting_ack());
    assert_eq!(c.last_rekey_at, at(3));
}

#[test]
fn a_spent_cipher_ends_the_session_that_keeps_its_init() {
    let mut crypto = sealed_state(1, 2);
    crypto.tx_cipher = Some(SessionCipher::resumed(&[1; 32], u64::MAX));
    let mut id = [0xAA; 32];
    let mut c = context();
    start_x25519_rekey(&mut c, 7, &[5; 32], at(1));
    let mut grace = RekeyRxGraceBuffer::new();
    let mut wire = WireOutbox::new(4, false);
    let r = handle_rekey_init_arm(
        &mut crypto, &mut id, &mut c, &mut grace, &SMALL, &LARGE, &[6; 32], &None, &mut wire, at(2),
    );
    assert_eq!(r, ArmOutcome::Close);
    assert!(wire.writes.is_empty());
    assert!(c.is_awaiting_ack());
}

#[test]
fn the_larger_end_gives_its_own_init_up() {
    let mut crypto = sealed_state(1, 2);
    let mut id = [0xAA; 32];
    let mut c = context();
    start_x25519_rekey(&mut c, 7, &[5; 32], at(1));
    let mut grace = RekeyRxGraceBuffer::new();
    let mut wire = WireOutbox::new(4, false);
    assert_eq!(rekey_init_exchange(&crypto, &c, &LARGE, &SMALL, &[6; 32]), Some([6; 32]));
    let weak = Some(RekeyExchange { our_pubkey: [8; 32], keys: None });
    let r = handle_rekey_init_arm(
        &mut crypto, &mut id, &mut c, &mut grace, &LARGE, &SMALL, &[6; 32], &weak, &mut wire, at(2),
    );
    assert_eq!(r, ArmOutcome::Close, "no keys could be derived");
    assert!(!c.is_awaiting_ack());
    assert!(wire.writes.is_empty());
}

#[test]
fn a_writer_without_room_keeps_the_old_keys() {
    let mut crypto = sealed_state(1, 2);
    let mut id = [0xAA; 32];
    let mut c = context();
    let mut grace = RekeyRxGraceBuffer::new();
    let mut wire = WireOutbox::new(0, false);
    let e = Some(RekeyExchange { our_pubkey: [8; 32], keys: Some(keys(3, 4, 0xBB)) });
    let r = handle_rekey_init_arm(
        &mut crypto, &mut id, &mut c, &mut grace, &SMALL, &LARGE, &[6; 32], &e, &mut wire, at(2),
    );
    assert_eq!(r, ArmOutcome::WriteFailed);
    assert_eq!(id, [0xAA; 32]);
    assert!(grace.entries.is_empty());
    let r = handle_rekey_init_arm(
        &mut crypto, &mut id, &mut c, &mut grace, &SMALL, &LARGE, &[6; 31], &None, &mut wire, at(2),
    );
    assert_eq!(r, ArmOutcome::Continue, "a malformed one is ignored");
}

#[test]
fn an_ack_ends_our_own_rekey() {
    let mut c = context();
    assert!(begin_rekey_ack(&mut c, &[1; 32]).is_none());
    start_x25519_rekey(&mut c, 7, &[5; 32], at(1));
    assert!(begin_rekey_ack(&mut c, &[1; 31]).is_none());
    assert!(c.is_awaiting_ack());
    assert_eq!(begin_rekey_ack(&mut c, &[1; 32]), Some((7, [1; 32])));
    let mut crypto = sealed_state(1, 2);
    let mut id = [0xAA; 32];
    let mut grace = RekeyRxGraceBuffer::new();
    assert_eq!(
        finish_rekey_ack(&mut crypto, &mut id, &mut c, &mut grace, &None, at(2)),
        ArmOutcome::Close
    );
    assert_eq!(
        finish_rekey_ack(&mut crypto, &mut id, &mut c, &mut grace, &Some(keys(3, 4, 5)), at(2)),
        ArmOutcome::Continue
    );
    assert_eq!(id, [5; 32]);
    assert_eq!(grace.entries.len(), 1);
}

fn decrypt(
    state: &mut CryptoState,
    grace: &mut RekeyRxGraceBuffer,
    mut raw: Vec<u8>,
    now: Instant,
) -> Result<Vec<u8>, DecryptFailure> {
    match state.decrypt_frame_body_in_place(&mut raw, 1, 2, grace, now)? {
        DecryptInPlaceOutcome::GracePlaintext(p) => Ok(p),
        _ => Ok(raw),
    }
}

#[test]
fn frames_in_flight_are_read_within_the_grace() {
    let mut old_tx = SessionCipher::new(&[2; 32]);
    let a = old_tx.seal(b"late", &frame_aad(1, 2)).unwrap();
    let b = old_tx.seal(b"later", &frame_aad(1, 2)).unwrap();
    let mut state = sealed_state(1, 2);
    let mut grace = RekeyRxGraceBuffer::new();
    let mut id = [0; 32];
    let mut c = context();
    assert!(!state.switch_keys(&mut id, &mut c, &mut grace, &keys(3, 4, 5), at(10)));
    assert_eq!(decrypt(&mut state, &mut grace, a, at(11)).unwrap(), b"late");
    assert_eq!(decrypt(&mut state, &mut grace, b.clone(), at(12)).unwrap(), b"later");
    assert_eq!(
        decrypt(&mut state, &mut grace, b, at(13)),
        Err(DecryptFailure::Violation),
        "a frame opens once"
    );
    assert_eq!(
        decrypt(&mut state, &mut grace, vec![0; 20], at(10 + REKEY_RX_GRACE_SECS)),
        Err(DecryptFailure::Violation)
    );
    assert!(grace.entries.is_empty(), "the grace is over");
}

#[test]
fn bodies_that_do_not_open_are_told_apart() {
    let mut grace = RekeyRxGraceBuffer::new();
    let mut state = sealed_state(1, 2);
    assert_eq!(
        decrypt(&mut state, &mut grace, vec![], at(1)),
        Err(DecryptFailure::Unauthenticated)
    );
    let mut worn = CryptoState {
        tx_cipher: None,
        rx_cipher: Some(SessionCipher::resumed(&[2; 32], u64::MAX)),
    };
    assert_eq!(
        decrypt(&mut worn, &mut grace, vec![0; 20], at(1)),
        Err(DecryptFailure::NonceOverflow)
    );
    assert_eq!(decrypt(&mut plain_state(), &mut grace, vec![7], at(1)).unwrap(), vec![7]);
    let sealed = SessionCipher::new(&[2; 32]).seal(b"ok", &frame_aad(1, 2)).unwrap();
    assert_eq!(decrypt(&mut state, &mut grace, sealed, at(1)).unwrap(), b"ok");
}

#[test]
fn only_so_many_ciphers_are_retired() {
    let mut grace = RekeyRxGraceBuffer::new();
    for i in 0..REKEY_RX_PREV_CAP {
        assert!(!grace.push(SessionCipher::new(&[i as u8; 32]), at(1)));
    }
    assert!(grace.push(SessionCipher::new(&[99; 32]), at(1)));
    assert_eq!(grace.entries.len(), REKEY_RX_PREV_CAP);
    let sealed = SessionCipher::new(&[99; 32]).seal(b"x", b"").unwrap();
    let hit = grace.try_open(&sealed, b"").unwrap();
    assert_eq!((hit.plaintext, hit.slot_from_newest), (b"x".to_vec(), 0));
    let gone = SessionCipher::new(&[0; 32]).seal(b"x", b"").unwrap();
    assert!(grace.try_open(&gone, b"").is_none());
}

#[test]
fn a_new_encapsulation_key_is_kept_and_acknowledged() {
    let mut crypto = plain_state();
    let mut cache = Some(BoundedPeerMap::new(2));
    let mut wire = WireOutbox::new(2, false);
    let ek = vec![3u8; MLKEM_EK_LEN];
    let r = handle_mlkem_rekey_ek_arm(&mut crypto, &SMALL, &mut cache, &ek, &mut wire, at(1));
    assert_eq!(r, ArmOutcome::Continue);
    assert_eq!(cache.as_ref().unwrap().get(&SMALL), Some(&ek));
    assert_eq!(
        wire.writes,
        vec![build_frame(FrameFamily::Session.code(), SessionMsg::MlKemRekeyAck.code(), b"")]
    );
    let r = handle_mlkem_rekey_ek_arm(&mut crypto, &LARGE, &mut cache, &[3; 10], &mut wire, at(1));
    assert_eq!(r, ArmOutcome::Continue);
    assert_eq!(cache.as_ref().unwrap().len(), 1);
    let mut full = WireOutbox::new(0, false);
    let r = handle_mlkem_rekey_ek_arm(&mut crypto, &LARGE, &mut cache, &ek, &mut full, at(1));
    assert_eq!(r, ArmOutcome::WriteFailed);
}

#[test]
fn the_seed_is_kept_once_the_peer_has_the_key() {
    let mut m = MlKemRekeyContext::new(100, 50, at(0));
    assert!(!mlkem_rekey_due(&m, true, true, at(49)));
    assert!(mlkem_rekey_due(&m, true, true, at(50)));
    assert!(!mlkem_rekey_due(&m, false, true, at(50)));
    m.record_bytes(100);
    assert!(mlkem_rekey_due(&m, true, true, at(1)));
    let (priority, frame) = start_mlkem_rekey(&mut m, &[7; 1184], [9; 64]);
    assert_eq!(priority, INTERACTIVE);
    assert_eq!(frame.len(), HEADER_SIZE + MLKEM_EK_LEN);
    assert!(!mlkem_rekey_due(&m, true, true, at(50)));
    let mut seeds = Some(BoundedPeerMap::new(1));
    handle_mlkem_rekey_ack_arm(&mut m, &SMALL, &mut seeds, at(60));
    assert_eq!(seeds.as_ref().unwrap().get(&SMALL), Some(&[9; 64]));
    assert_eq!((m.bytes_since_rekey, m.last_rekey_at), (0, at(60)));
    handle_mlkem_rekey_ack_arm(&mut m, &LARGE, &mut seeds, at(61));
    assert!(seeds.as_ref().unwrap().get(&LARGE).is_none(), "no key was waiting");
}

#[test]
fn the_oldest_peer_makes_room() {
    let mut t: BoundedPeerMap<u8> = BoundedPeerMap::new(2);
    t.insert_evicting_oldest(b"a", 1, at(5));
    t.insert_evicting_oldest(b"b", 2, at(4));
    t.insert_evicting_oldest(b"c", 3, at(6));
    assert_eq!(t.len(), 2);
    assert!(t.get(b"b").is_none());
    assert_eq!(t.get(b"a"), Some(&1));
    t.insert_evicting_any(b"a", 9, at(7));
    assert_eq!((t.len(), t.get(b"a")), (2, Some(&9)));
    t.insert_evicting_any(b"d", 4, at(7));
    assert_eq!((t.len(), t.get(b"d")), (2, Some(&4)));
}

#[test]
fn received_tickets_are_kept_with_the_keys() {
    let mut store: Option<BoundedPeerMap<ClientTicketEntry>> = Some(BoundedPeerMap::new(2));
    let blob = vec![1u8; SESSION_TICKET_ENCRYPTED_SIZE];
    let k = Some(keys(1, 2, 3));
    handle_ticket_arm(&SMALL, &mut store, &None, &None, &None, &blob, at(1));
    handle_ticket_arm(&SMALL, &mut store, &k, &None, &None, &blob[1..], at(1));
    assert_eq!(store.as_ref().unwrap().len(), 0);
    let name = Some("pk".to_string());
    handle_ticket_arm(&SMALL, &mut store, &k, &name, &None, &blob, at(1));
    let e = store.as_ref().unwrap().get(&SMALL).unwrap();
    assert_eq!(e.blob, blob);
    assert_eq!(e.keys.session_id, [3; 32]);
    assert_eq!((e.peer_public_key.as_str(), e.peer_nonce.as_str()), ("pk", ""));
}

#[test]
fn a_pending_ticket_is_sent_once() {
    let mut crypto = plain_state();
    let mut ticket = Some(vec![5; 10]);
    let mut wire = WireOutbox::new(2, false);
    assert_eq!(
        send_pending_session_ticket(&mut crypto, &mut ticket, &mut wire),
        ArmOutcome::Continue
    );
    assert_eq!(
        wire.writes,
        vec![build_frame(FrameFamily::Session.code(), SessionMsg::Ticket.code(), &[5; 10])]
    );
    assert!(ticket.is_none());
    assert_eq!(
        send_pending_session_ticket(&mut crypto, &mut ticket, &mut wire),
        ArmOutcome::Continue
    );
    assert_eq!(wire.writes.len(), 1);
}
