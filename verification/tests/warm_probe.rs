use veil::session::frame::{build_frame, decode_header, HEADER_SIZE};
use veil::session::handoff::HandoffAckWaiters;
use veil::session::messages::{FrameFamily, SessionMsg};
use veil::session::tx_registry::INTERACTIVE;
use veil::session::warm_probe::{
    initiate_handoff, HandoffAction, HandoffDriver, HandoffEvent, WarmProbeError,
};
use veil::time::Duration;

#[test]
fn dial_failure_surfaces_as_dial_error() {
    let res = initiate_handoff(&Some("io error: refused".to_string()), false);
    assert!(
        matches!(res, Err(WarmProbeError::Dial(_))),
        "expected Dial error, got {res:?}"
    );
    assert!(initiate_handoff(&None, true).is_ok());
}

fn session_frame(frame: &[u8]) -> (u8, u16, Vec<u8>) {
    let h = match decode_header(frame) {
        Ok(h) => h,
        Err(_) => panic!("header"),
    };
    (h.family, h.msg_type, frame[HEADER_SIZE..].to_vec())
}

#[test]
fn handoff_happy_path_drives_full_protocol() {
    let session_id = [0xAAu8; 32];
    let nonce = [0x5Au8; 32];
    let mut waiters = HandoffAckWaiters::new();
    let (mut driver, first) =
        HandoffDriver::start(session_id, nonce, Duration::from_secs(5), &mut waiters);
    assert!(
        waiters.received(&session_id).is_none(),
        "the waiter is there before the announcement, and empty"
    );
    let HandoffAction::SendOnSession(priority, init) = first else {
        panic!("the announcement comes first");
    };
    assert_eq!(priority, INTERACTIVE);
    let (family, msg, body) = session_frame(&init);
    assert_eq!(family, FrameFamily::Session.code());
    assert_eq!(msg, SessionMsg::HandoffInit.code());
    assert!(body.windows(32).any(|w| w == nonce));

    assert!(waiters.deliver(&session_id, nonce));
    assert_eq!(waiters.received(&session_id), Some(nonce));

    assert!(matches!(
        driver.step(HandoffEvent::AnnouncementSent(true)),
        HandoffAction::AwaitAck
    ));
    let HandoffAction::WriteOnNew(attach) = driver.step(HandoffEvent::Acknowledged(nonce)) else {
        panic!("the session is announced on the new connection");
    };
    let (family, msg, body) = session_frame(&attach);
    assert_eq!(family, FrameFamily::Session.code());
    assert_eq!(msg, SessionMsg::HandoffAttach.code());
    assert_eq!(body, session_id.to_vec());
    assert!(matches!(driver.step(HandoffEvent::Written), HandoffAction::ReadHeader));

    let challenge = [0xC1u8; 32];
    let frame = build_frame(
        FrameFamily::Session.code(),
        SessionMsg::HandoffChallenge.code(),
        &challenge,
    );
    let HandoffAction::ReadBody(n) =
        driver.step(HandoffEvent::HeaderRead(frame[..HEADER_SIZE].to_vec()))
    else {
        panic!("the challenge is read");
    };
    assert_eq!(n, 32);
    let HandoffAction::ComputeAnswer(asked) =
        driver.step(HandoffEvent::BodyRead(challenge.to_vec()))
    else {
        panic!("the challenge is answered");
    };
    assert_eq!(asked, challenge);
    let HandoffAction::WriteOnNew(answer) = driver.step(HandoffEvent::Answer([0x77; 32])) else {
        panic!("the answer is sent");
    };
    let (_, msg, body) = session_frame(&answer);
    assert_eq!(msg, SessionMsg::HandoffResponse.code());
    assert_eq!(body, vec![0x77; 32]);
    assert!(matches!(driver.step(HandoffEvent::Written), HandoffAction::HandOver));
    assert!(matches!(driver.step(HandoffEvent::HandedOver(true)), HandoffAction::Done));
    assert_eq!(waiters.unregister(&session_id), Some(nonce));
}

fn begun(nonce: [u8; 32]) -> HandoffDriver {
    let mut waiters = HandoffAckWaiters::new();
    HandoffDriver::start([1u8; 32], nonce, Duration::from_secs(1), &mut waiters).0
}

#[test]
fn handoff_without_primary_outbox_errors_cleanly() {
    let mut d = begun([2; 32]);
    assert!(matches!(
        d.step(HandoffEvent::AnnouncementSent(false)),
        HandoffAction::Fail(WarmProbeError::PrimarySendFailed)
    ));
}

#[test]
fn handoff_ack_timeout_surfaces_correctly() {
    let mut d = begun([2; 32]);
    d.step(HandoffEvent::AnnouncementSent(true));
    match d.step(HandoffEvent::TimedOut) {
        HandoffAction::Fail(e) => {
            assert_eq!(e.message(), "HandoffAck timed out after 1s");
        }
        _ => panic!("expected AckTimeout"),
    }
}

#[test]
fn an_acknowledgement_of_another_handoff_is_not_ours() {
    let mut d = begun([2; 32]);
    d.step(HandoffEvent::AnnouncementSent(true));
    assert!(matches!(
        d.step(HandoffEvent::Acknowledged([3; 32])),
        HandoffAction::Fail(_)
    ));
}

#[test]
fn a_session_that_has_ended_cannot_take_the_connection() {
    let nonce = [2u8; 32];
    let mut d = begun(nonce);
    d.step(HandoffEvent::AnnouncementSent(true));
    d.step(HandoffEvent::Acknowledged(nonce));
    d.step(HandoffEvent::Written);
    let frame = build_frame(
        FrameFamily::Session.code(),
        SessionMsg::HandoffChallenge.code(),
        &[9u8; 32],
    );
    d.step(HandoffEvent::HeaderRead(frame[..HEADER_SIZE].to_vec()));
    d.step(HandoffEvent::BodyRead(vec![9u8; 32]));
    d.step(HandoffEvent::Answer([0; 32]));
    d.step(HandoffEvent::Written);
    match d.step(HandoffEvent::HandedOver(false)) {
        HandoffAction::Fail(e) => {
            assert!(e.message().contains("session already closed"));
        }
        _ => panic!("expected RunnerGone"),
    }
}

#[test]
fn another_frame_in_place_of_the_challenge_fails() {
    let nonce = [2u8; 32];
    let mut d = begun(nonce);
    d.step(HandoffEvent::AnnouncementSent(true));
    d.step(HandoffEvent::Acknowledged(nonce));
    d.step(HandoffEvent::Written);
    let frame = build_frame(FrameFamily::Session.code(), SessionMsg::HandoffAck.code(), &[9; 32]);
    match d.step(HandoffEvent::HeaderRead(frame[..HEADER_SIZE].to_vec())) {
        HandoffAction::Fail(e) => assert_eq!(
            e.message(),
            "HandoffAttach write failed: unexpected frame where HandoffChallenge expected"
        ),
        _ => panic!("expected AttachWrite"),
    }
}

#[test]
fn every_failure_has_words() {
    assert_eq!(WarmProbeError::ProbeGone.message(), "probe task has exited");
    assert_eq!(
        WarmProbeError::Dial("x".to_string()).message(),
        "warm-probe dial failed: x"
    );
    assert_eq!(
        WarmProbeError::AckTimeout(Duration::from_millis(1500)).message(),
        "HandoffAck timed out after 1.5s"
    );
}

#[test]
fn each_move_has_its_own_nonce() {
    let session_id = [7u8; 32];
    let mut waiters = HandoffAckWaiters::new();
    let (one, first) = HandoffDriver::begin(session_id, Duration::from_secs(5), &mut waiters);
    let (two, _) = HandoffDriver::begin(session_id, Duration::from_secs(5), &mut waiters);
    assert_ne!(one.nonce, two.nonce);
    let HandoffAction::SendOnSession(priority, init) = first else {
        panic!("the announcement comes first");
    };
    assert_eq!(priority, INTERACTIVE);
    let (_, msg, body) = session_frame(&init);
    assert_eq!(msg, SessionMsg::HandoffInit.code());
    assert_eq!(body, one.nonce.to_vec());
}
