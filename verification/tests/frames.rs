use veil::crypto::AEAD_OVERHEAD;
use veil::session::cipher::{CipherError, SessionCipher};
use veil::session::frame::{
    apply_tx_cipher, build_frame, build_padding_wire, coalesce_with_padding, decode_header,
    decode_header_with_limit, encode_header, encrypted_wire_len, frame_aad, padded_wire_len,
    padding_frame_min_bytes, pick_tls_bucket, FrameHeader, HeaderError, HEADER_SIZE,
    MAX_FRAME_BODY, TLS_BUCKET_SIZES, WIRE_VERSION,
};
use veil::session::messages::{ControlMsg, DiscoveryMsg, FrameFamily, SessionMsg};
use veil::session::outbound::{
    drain_limit, flush_plain, flush_sealed, planned_batch_len, planned_pass_len, seal_batch,
    seal_pass, FlushOutcome, PQ_DRAIN_FRAMES_PER_PASS,
};
use veil::session::wire::{PushError, WireOutbox};

fn header() -> FrameHeader {
    FrameHeader {
        family: 3,
        msg_type: 0x0102,
        flags: 0x0304_0506,
        body_len: 7,
        request_id: 0x1112_1314_1516_1718,
    }
}

#[test]
fn headers_are_laid_out_in_order() {
    let bytes = encode_header(&header());
    assert_eq!(
        bytes,
        vec![
            0x4f, 0x56, 0x4c, 0x31, WIRE_VERSION, 3, 1, 2, 3, 4, 5, 6, 0, 0, 0, 7, 0x11, 0x12,
            0x13, 0x14, 0x15, 0x16, 0x17, 0x18
        ]
    );
    assert_eq!(decode_header(&bytes), Ok(header()));
}

#[test]
fn bad_headers_say_what_is_wrong() {
    let good = encode_header(&header());
    assert_eq!(decode_header(&good[..23]), Err(HeaderError::TooShort));
    let mut magic = good.clone();
    magic[0] = 0;
    assert_eq!(decode_header(&magic), Err(HeaderError::BadMagic));
    let mut version = good.clone();
    version[4] = 9;
    assert_eq!(decode_header(&version), Err(HeaderError::BadVersion));
    assert_eq!(decode_header_with_limit(&good, 6), Err(HeaderError::BodyTooLarge));
    assert_eq!(decode_header_with_limit(&good, 7), Ok(header()));
}

#[test]
fn a_sealed_body_opens_only_in_its_turn_and_under_its_kind() {
    let mut tx = SessionCipher::new(&[1; 32]);
    let mut rx = SessionCipher::new(&[1; 32]);
    let aad = frame_aad(1, 2);
    assert_eq!(aad, vec![1, 0, 2]);
    let a = tx.seal(b"first", &aad).unwrap();
    let b = tx.seal(b"second", &aad).unwrap();
    assert_eq!(a.len(), 5 + AEAD_OVERHEAD);
    assert_eq!(rx.open(&b, &aad), Err(CipherError::Rejected));
    assert_eq!(rx.open(&a, &frame_aad(1, 3)), Err(CipherError::Rejected));
    assert_eq!(rx.frames_processed(), 0);
    assert_eq!(rx.open(&a, &aad).unwrap(), b"first");
    assert_eq!(rx.open(&b, &aad).unwrap(), b"second");
    assert_eq!(tx.frames_processed(), 2);
}

#[test]
fn an_exhausted_counter_seals_nothing() {
    let mut c = SessionCipher::resumed(&[1; 32], u64::MAX);
    assert_eq!(c.seal(b"x", b""), Err(CipherError::NonceOverflow));
    assert_eq!(c.open(&[0; 17], b""), Err(CipherError::NonceOverflow));
    assert!(apply_tx_cipher(&build_frame(1, 1, b"x"), &mut c).is_none());
    assert!(build_padding_wire(1300, &mut c).is_none());
}

#[test]
fn what_is_too_short_for_a_header_passes_as_it_is() {
    let mut c = SessionCipher::new(&[1; 32]);
    assert_eq!(apply_tx_cipher(b"short", &mut c).unwrap(), b"short");
    assert_eq!(c.frames_processed(), 0);
    assert!(apply_tx_cipher(&[0; 24], &mut c).is_none(), "not a header");
}

#[test]
fn buckets_fit_exactly_or_with_room_for_padding() {
    assert_eq!(TLS_BUCKET_SIZES, [1300, 4096, 16384]);
    assert_eq!(padding_frame_min_bytes(), HEADER_SIZE + 1);
    let least = HEADER_SIZE + 1 + AEAD_OVERHEAD;
    assert_eq!(pick_tls_bucket(1300), Some(1300));
    assert_eq!(pick_tls_bucket(1300 - least), Some(1300));
    assert_eq!(pick_tls_bucket(1300 - least + 1), Some(4096));
    assert_eq!(pick_tls_bucket(16384), Some(16384));
    assert_eq!(pick_tls_bucket(16385), None);
    assert_eq!(padded_wire_len(10, true), 1300);
    assert_eq!(padded_wire_len(10, false), 10);
    assert_eq!(padded_wire_len(20000, true), 20000);
    assert_eq!(encrypted_wire_len(10), Some(26));
    assert_eq!(encrypted_wire_len(usize::MAX), None);
}

#[test]
fn padding_has_the_wanted_length_or_is_not_made() {
    let mut c = SessionCipher::new(&[1; 32]);
    let least = HEADER_SIZE + 1 + AEAD_OVERHEAD;
    assert!(build_padding_wire(least - 1, &mut c).is_none());
    assert_eq!(c.frames_processed(), 0);
    assert_eq!(build_padding_wire(least, &mut c).unwrap().len(), least);
    assert_eq!(build_padding_wire(500, &mut c).unwrap().len(), 500);
    assert!(build_padding_wire(
        HEADER_SIZE + MAX_FRAME_BODY as usize + AEAD_OVERHEAD + 1,
        &mut c
    )
    .is_none());
    assert_eq!(coalesce_with_padding(b"abc", None, true), b"abc");
    assert_eq!(coalesce_with_padding(b"abc", Some(&mut c), false), b"abc");
    let padded = coalesce_with_padding(b"abc", Some(&mut c), true);
    assert_eq!(&padded[..3], b"abc");
    assert_eq!(padded.len(), 1300);
}

fn opened(wire: &[u8], key: &[u8; 32]) -> Vec<(FrameHeader, Vec<u8>)> {
    let mut rx = SessionCipher::new(key);
    let mut at = 0;
    let mut all = Vec::new();
    while at < wire.len() {
        let h = decode_header(&wire[at..]).unwrap();
        let end = at + HEADER_SIZE + h.body_len as usize;
        let aad = frame_aad(h.family, h.msg_type);
        all.push((h, rx.open(&wire[at + HEADER_SIZE..end], &aad).unwrap()));
        at = end;
    }
    all
}

#[test]
fn a_group_is_sealed_in_order_and_padded_once() {
    let key = [4; 32];
    let frames = vec![build_frame(1, 1, b"a"), build_frame(1, 2, b"bb")];
    assert_eq!(planned_batch_len(&frames), Some(25 + 26 + 2 * AEAD_OVERHEAD));
    assert_eq!(planned_pass_len(&frames, true), Some(1300));
    let mut c = SessionCipher::new(&key);
    let plain = seal_batch(&frames, &mut c).unwrap();
    assert_eq!(plain.len(), 25 + 26 + 2 * AEAD_OVERHEAD);
    let mut c = SessionCipher::new(&key);
    let pass = seal_pass(&frames, &mut c, true).unwrap();
    assert_eq!(pass.len(), 1300);
    assert_eq!(&pass[..plain.len()], plain.as_slice());
    assert_eq!(c.frames_processed(), 3);
    let got = opened(&pass, &key);
    assert_eq!(got.len(), 3);
    assert_eq!(got[0].1, b"a");
    assert_eq!(got[1].1, b"bb");
    assert_eq!(got[2].0.msg_type, SessionMsg::Padding.code());
}

#[test]
fn a_frame_that_cannot_be_sealed_ends_the_group() {
    let mut c = SessionCipher::new(&[4; 32]);
    let frames = vec![build_frame(1, 1, b"a"), vec![0; 30]];
    let mut wire = WireOutbox::new(4, false);
    assert_eq!(flush_sealed(&frames, &mut c, false, &mut wire), FlushOutcome::Close);
    assert!(wire.writes.is_empty());
}

#[test]
fn a_sealed_group_is_one_write() {
    let mut c = SessionCipher::new(&[4; 32]);
    let frames = vec![build_frame(1, 1, b"a"), build_frame(1, 2, b"bb")];
    let mut wire = WireOutbox::new(1, false);
    assert_eq!(
        flush_sealed(&frames, &mut c, false, &mut wire),
        FlushOutcome::Queued(51 + 2 * AEAD_OVERHEAD as u64)
    );
    assert_eq!((wire.writes.len(), wire.slots), (1, 0));
    assert_eq!(flush_sealed(&frames, &mut c, false, &mut wire), FlushOutcome::WriteFailed);
    assert_eq!(wire.writes.len(), 1);
}

#[test]
fn plain_frames_beyond_the_slots_are_dropped() {
    let frames = vec![vec![1], vec![2, 2], vec![3, 3, 3]];
    let mut wire = WireOutbox::new(2, false);
    assert_eq!(flush_plain(&frames, &mut wire), FlushOutcome::Queued(3));
    assert_eq!(wire.writes, vec![vec![1], vec![2, 2]]);
    let mut gone = WireOutbox::new(2, true);
    assert_eq!(flush_plain(&frames, &mut gone), FlushOutcome::WriteFailed);
}

#[test]
fn the_writer_refuses_when_full_or_gone() {
    let mut wire = WireOutbox::new(1, false);
    assert_eq!(wire.push_wire(vec![1]), Ok(()));
    assert_eq!(wire.push_wire(vec![2]), Err(PushError::Full));
    let mut gone = WireOutbox::new(1, true);
    assert_eq!(gone.push_wire(vec![1]), Err(PushError::Closed));
}

#[test]
fn one_pass_takes_what_the_writer_has_room_for() {
    assert_eq!(drain_limit(true, 10, false), 0);
    assert_eq!(drain_limit(false, 0, true), 0);
    assert_eq!(drain_limit(false, 3, false), 3);
    assert_eq!(drain_limit(false, 3, true), PQ_DRAIN_FRAMES_PER_PASS);
    assert_eq!(drain_limit(false, 1000, false), PQ_DRAIN_FRAMES_PER_PASS);
}

#[test]
fn message_codes_read_back() {
    for code in 0..20u16 {
        match SessionMsg::from_code(code) {
            Some(m) => assert_eq!(m.code(), code),
            None => assert!(code == 0 || code > 15),
        }
    }
    assert!(DiscoveryMsg::is_response(DiscoveryMsg::FindNodeV2Response.code()));
    assert!(!DiscoveryMsg::is_response(4));
    assert_eq!(ControlMsg::KeepaliveAck.code(), 2);
    assert_eq!(FrameFamily::Routing.code(), 4);
}
