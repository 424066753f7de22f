use veil::crypto::AEAD_OVERHEAD;
use veil::session::cipher::SessionCipher;
use veil::session::frame::{
    apply_tx_cipher, coalesce_with_padding, decode_header, encode_header, frame_aad, FrameHeader,
    HEADER_SIZE,
};
use veil::session::liveness::{
    should_reeval_teardown, KEEPALIVE_SWAP_ATTEMPT_CEILING, TX_WEDGE_PROBE_MULTIPLE,
};
use veil::session::messages::{FrameFamily, SessionMsg};
use veil::session::signals::{padding_enabled, set_padding_enabled, Signals};
use veil::time::Duration;

#[test]
fn empty_control_frame_is_sealed_not_passed_through() {
    let key = [0x11u8; 32];
    let mut tx = SessionCipher::new(&key);

    let hdr = FrameHeader::new(0u8, 0u16);
    let frame = encode_header(&hdr);
    assert_eq!(frame.len(), HEADER_SIZE);

    let sealed = apply_tx_cipher(&frame, &mut tx).expect("empty frame must seal");
    let bytes = sealed.as_slice();
    assert_eq!(
        bytes.len(),
        HEADER_SIZE + AEAD_OVERHEAD,
        "empty control frame must carry a 16-byte AEAD tag, not pass through verbatim"
    );

    let out_hdr = match decode_header(bytes) {
        Ok(h) => h,
        Err(_) => panic!("decode sealed header"),
    };
    assert_eq!(
        out_hdr.body_len as usize, AEAD_OVERHEAD,
        "body_len must reflect the AEAD tag length"
    );

    let mut rx = SessionCipher::new(&key);
    let aad = frame_aad(out_hdr.family, out_hdr.msg_type);
    let pt = match rx.open(&bytes[HEADER_SIZE..], &aad) {
        Ok(p) => p,
        Err(_) => panic!("sealed empty frame must open"),
    };
    assert!(pt.is_empty(), "sealed empty frame opens to empty plaintext");
}

#[test]
fn several_encrypted_frames_share_one_padding_bucket_and_stay_parseable() {
    let mut signals = Signals::new();
    set_padding_enabled(&mut signals, true);
    let key = [0x22u8; 32];
    let mut tx = SessionCipher::new(&key);
    let bodies = [vec![0xA1; 300], vec![0xB2; 300], vec![0xC3; 300]];
    let mut real_batch = Vec::new();

    for (i, body) in bodies.iter().enumerate() {
        let mut hdr = FrameHeader::new(FrameFamily::Control.code(), i as u16 + 1);
        hdr.body_len = body.len() as u32;
        let mut frame = encode_header(&hdr);
        frame.extend_from_slice(body);
        let sealed = apply_tx_cipher(&frame, &mut tx).expect("seal real frame");
        real_batch.extend_from_slice(&sealed);
    }

    let wire = coalesce_with_padding(&real_batch, Some(&mut tx), padding_enabled(&signals));
    assert_eq!(wire.len(), 1300, "three small real frames share one bucket");

    let mut rx = SessionCipher::new(&key);
    let mut cursor = 0usize;
    let mut opened = Vec::new();
    while cursor < wire.len() {
        let hdr = match decode_header(&wire[cursor..]) {
            Ok(h) => h,
            Err(_) => panic!("decode concatenated header"),
        };
        let frame_len = HEADER_SIZE + hdr.body_len as usize;
        let body_start = cursor + HEADER_SIZE;
        let body_end = cursor + frame_len;
        let aad = frame_aad(hdr.family, hdr.msg_type);
        let plaintext = match rx.open(&wire[body_start..body_end], &aad) {
            Ok(p) => p,
            Err(_) => panic!("open concatenated frame in cipher order"),
        };
        opened.push((hdr.family, hdr.msg_type, plaintext));
        cursor = body_end;
    }

    assert_eq!(opened.len(), 4, "three real frames plus one padding frame");
    for (i, expected) in bodies.iter().enumerate() {
        assert_eq!(opened[i].2, *expected);
    }
    assert_eq!(opened[3].0, FrameFamily::Session.code());
    assert_eq!(opened[3].1, SessionMsg::Padding.code());
}

const CEILING: u32 = KEEPALIVE_SWAP_ATTEMPT_CEILING;

fn timeout() -> Duration {
    Duration::from_secs(10)
}

fn half() -> Duration {
    Duration::from_secs(5)
}

fn zero() -> Duration {
    Duration::from_secs(0)
}

#[test]
fn ack_before_2x_no_teardown() {
    assert!(!should_reeval_teardown(timeout(), timeout(), 1, CEILING, timeout(), true));
}

#[test]
fn fresh_genuine_rx_no_teardown() {
    assert!(!should_reeval_teardown(timeout(), timeout(), 5, CEILING, half(), false));
}

#[test]
fn multi_transport_learned_alt_uri_reaps_at_ceiling() {
    assert!(should_reeval_teardown(timeout(), timeout(), CEILING, CEILING, timeout(), true));
}

#[test]
fn probe_not_stale_no_teardown() {
    assert!(!should_reeval_teardown(half(), timeout(), CEILING, CEILING, timeout(), false));
}

#[test]
fn zero_timeout_no_teardown() {
    assert!(!should_reeval_teardown(timeout(), zero(), CEILING, CEILING, timeout(), false));
}

#[test]
fn no_failover_first_reeval() {
    assert!(should_reeval_teardown(timeout(), timeout(), 0, CEILING, timeout(), false));
}

#[test]
fn tx_wedge_reaps_despite_fresh_genuine_rx() {
    assert!(should_reeval_teardown(
        Duration::from_secs(10 * TX_WEDGE_PROBE_MULTIPLE as u64),
        timeout(),
        CEILING,
        CEILING,
        zero(),
        false,
    ));
}

#[test]
fn tx_wedge_below_multiple_fresh_rx_still_protects() {
    assert!(!should_reeval_teardown(
        Duration::from_secs(10 * (TX_WEDGE_PROBE_MULTIPLE as u64 - 1)),
        timeout(),
        CEILING,
        CEILING,
        zero(),
        false,
    ));
}

#[test]
fn tx_wedge_with_failover_no_teardown() {
    assert!(!should_reeval_teardown(
        Duration::from_secs(10 * TX_WEDGE_PROBE_MULTIPLE as u64),
        timeout(),
        1,
        CEILING,
        zero(),
        true,
    ));
}
