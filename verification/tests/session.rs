use veil::crypto::AEAD_OVERHEAD;
use veil::session::cipher::SessionCipher;
use veil::session::frame::{build_frame, decode_header, FrameHeader, HeaderError, HEADER_SIZE};
use veil::session::handoff::{
    handle_handoff_ack_arm, handle_handoff_init_arm, register_swap_channel, HandoffAckOutcome,
    HandoffAckWaiters, HandoffInitOutcome, PendingHandoff,
};
use veil::session::liveness::{CloseReason, ProbeStage, TriggerReason};
use veil::session::messages::{ControlMsg, DiscoveryMsg, FrameFamily, SessionMsg};
use veil::session::migration::{
    apply_migration, check_pubkey, handle_transport_migration_notify_arm, MigrationStep,
    TransportMigrationNotify,
};
use veil::session::outbound::FlushOutcome;
use veil::session::pending::PendingResponseTable;
use veil::session::pow::{
    accept_challenge, deliver_solution, encode_routing_frame, solution_fallback, PowBudget,
};
use veil::session::rekey::{CryptoState, DecryptFailure, RekeyConfig, SessionKeys};
use veil::session::rendezvous::{
    handle_rendezvous_request_arm, RejectReason, RendezvousResult, RequestOutcome,
};
use veil::session::runner::{
    build_cover_frame, DispatchOutcome, DispatchResult, InputAction, NextInput, ResponsePlan,
    Route, RunnerConfig, SessionRunner, BACKGROUND, COVER_BODY_LEN,
};
use veil::session::session_alias_guard::register_session_aliases_with_drop_guard;
use veil::session::tx_registry::{SessionTxRegistry, INTERACTIVE, REALTIME};
use veil::session::wire::WireOutbox;
use veil::table::Table;
use veil::time::{Duration, Instant};

fn secs(n: u64) -> Duration {
    Duration::from_secs(n)
}

fn at(n: u64) -> Instant {
    Instant::at(secs(n))
}

fn config() -> RunnerConfig {
    RunnerConfig {
        keepalive_interval: secs(10),
        idle_timeout: secs(60),
        rekey: RekeyConfig { bytes_threshold: 10_000, time_threshold_secs: 3600 },
        mlkem_bytes_threshold: 10_000,
        mlkem_time_threshold_secs: 3600,
        max_pending_responses: 2,
        pending_response_ttl: secs(30),
        max_frame_body: 1000,
        auto_trigger_after_write_errors: 2,
    }
}

/// One end of a session whose two directions have different keys, from 1000 s on.
fn end(tx: u8, rx: u8) -> SessionRunner<(), &'static str> {
    let crypto = CryptoState {
        tx_cipher: Some(SessionCipher::new(&[tx; 32])),
        rx_cipher: Some(SessionCipher::new(&[rx; 32])),
    };
    SessionRunner::new(
        [2; 32], [1; 32], [9; 32], crypto, config(), None, at(1000), secs(10), secs(30), None,
    )
}

fn plain_end() -> SessionRunner<(), &'static str> {
    let crypto = CryptoState { tx_cipher: None, rx_cipher: None };
    SessionRunner::new(
        [2; 32], [1; 32], [9; 32], crypto, config(), None, at(1000), secs(10), secs(30),
        Some(secs(100)),
    )
}

fn split(write: &[u8]) -> Vec<(FrameHeader, Vec<u8>)> {
    let mut all = Vec::new();
    let mut i = 0;
    while i < write.len() {
        let h = decode_header(&write[i..]).unwrap();
        let e = i + HEADER_SIZE + h.body_len as usize;
        all.push((h, write[i + HEADER_SIZE..e].to_vec()));
        i = e;
    }
    all
}

#[test]
fn what_one_end_sends_the_other_end_reads() {
    let mut a = end(1, 2);
    let mut b = end(2, 1);
    let mut wire = WireOutbox::new(4, false);
    let frames = vec![
        build_frame(FrameFamily::Routing.code(), 7, b"hello"),
        build_frame(FrameFamily::Session.code(), SessionMsg::Ticket.code(), b"t"),
    ];
    let r = a.flush(&frames, true, &mut wire, at(1001));
    assert_eq!(r, FlushOutcome::Queued(1300));
    assert_eq!(a.rekey.bytes_since_rekey, 1300);
    let got = split(&wire.writes[0]);
    assert_eq!(got.len(), 3);
    let mut routes = Vec::new();
    for (h, raw) in got {
        let (body, route) = b.on_frame(&h, raw, at(1001)).unwrap();
        routes.push((body, route));
    }
    assert_eq!(routes[0].0, b"hello");
    assert!(matches!(routes[0].1, Route::Dispatch));
    assert_eq!(routes[1].0, b"t");
    assert!(matches!(routes[1].1, Route::Ticket));
    assert!(matches!(routes[2].1, Route::Drop), "padding goes nowhere");
    assert!(b.rekey.bytes_since_rekey > 0);
}

#[test]
fn bodies_that_were_changed_are_never_routed() {
    let mut b = end(2, 1);
    let h = FrameHeader::new(1, 1);
    assert!(matches!(
        b.on_frame(&h, vec![0; 40], at(1001)),
        Err(DecryptFailure::Violation)
    ));
    assert!(matches!(b.on_body(&h, vec![], at(1001)), Err(DecryptFailure::Unauthenticated)));
    assert_eq!(b.rekey.bytes_since_rekey, 0);
}

#[test]
fn headers_are_held_to_the_session_limit() {
    let r = end(1, 2);
    let f = build_frame(1, 1, &[0; 1001]);
    assert_eq!(r.on_header(&f[..HEADER_SIZE]), Err(HeaderError::BodyTooLarge));
    assert!(r.on_header(&build_frame(1, 1, b"x")).is_ok());
}

#[test]
fn session_messages_go_to_their_arms() {
    let mut r = end(1, 2);
    let mut to = |m: SessionMsg| {
        r.route(&FrameHeader::new(FrameFamily::Session.code(), m.code()), at(1001))
    };
    assert!(matches!(to(SessionMsg::RekeyInit), Route::RekeyInit));
    assert!(matches!(to(SessionMsg::RekeyAck), Route::RekeyAck));
    assert!(matches!(to(SessionMsg::RekeyKeptInit), Route::RekeyKeptInit));
    assert!(matches!(to(SessionMsg::MlKemRekeyEk), Route::MlKemRekeyEk));
    assert!(matches!(to(SessionMsg::MlKemRekeyAck), Route::MlKemRekeyAck));
    assert!(matches!(to(SessionMsg::HandoffInit), Route::HandoffInit));
    assert!(matches!(to(SessionMsg::HandoffAck), Route::HandoffAck));
    assert!(matches!(to(SessionMsg::HandoffAttach), Route::Drop));
    assert!(matches!(to(SessionMsg::TransportMigrationNotify), Route::TransportMigrationNotify));
    assert!(matches!(to(SessionMsg::RequestEphemeralEndpoint), Route::RequestEphemeralEndpoint));
    assert!(matches!(to(SessionMsg::EphemeralEndpointResponse), Route::Dispatch));
}

#[test]
fn answers_find_the_request_that_waits() {
    let mut r = end(1, 2);
    let ask = |id| NextInput::RpcRequest { request_id: id, frame: vec![1], reply_to: "here" };
    assert!(matches!(
        r.on_input(ask(5), at(1001)),
        InputAction::Enqueue(INTERACTIVE, f) if f == vec![1]
    ));
    let mut h = FrameHeader::new(
        FrameFamily::Discovery.code(),
        DiscoveryMsg::FindValueResponse.code(),
    );
    h.request_id = 5;
    assert!(matches!(r.route(&h, at(1001)), Route::Answer("here")));
    assert!(matches!(r.route(&h, at(1001)), Route::Dispatch), "it was answered already");
    r.on_input(ask(1), at(1001));
    r.on_input(ask(2), at(1002));
    r.on_input(ask(3), at(1003));
    assert_eq!(r.pending.len(), 2, "the oldest made room");
    r.on_input(NextInput::Timer, at(1032));
    assert_eq!(r.pending.len(), 1, "one has waited too long");
}

#[test]
fn requests_wait_for_a_while_only() {
    let mut t: PendingResponseTable<u8> = PendingResponseTable::new(2, secs(10));
    t.insert(1, 10, at(0));
    t.insert(1, 11, at(1));
    assert_eq!(t.len(), 1, "a request is asked once");
    assert_eq!(t.take(1), Some(11));
    assert_eq!(t.take(1), None);
    t.insert(1, 10, at(5));
    t.insert(2, 20, at(4));
    t.evict_oldest_if_at_capacity();
    assert_eq!(t.take(2), None);
    t.evict_expired(at(15));
    assert_eq!(t.len(), 0);
}

#[test]
fn inputs_lead_to_their_actions() {
    let mut r = plain_end();
    assert!(matches!(r.on_input(NextInput::Byte(7), at(1001)), InputAction::ReadFrame(7)));
    assert_eq!(r.liveness.timers.last_rx(), at(1001));
    assert!(matches!(
        r.on_input(NextInput::OutboxFrame(3, vec![4]), at(1001)),
        InputAction::Enqueue(3, f) if f == vec![4]
    ));
    assert!(matches!(
        r.on_input(NextInput::Timer, at(1002)),
        InputAction::Resume { check_battery: false }
    ));
    assert!(matches!(
        r.on_input(NextInput::Timer, at(1060)),
        InputAction::Resume { check_battery: true }
    ));
    assert!(matches!(
        r.on_input(NextInput::SwapStream, at(1061)),
        InputAction::Resume { check_battery: false }
    ));
    assert!(matches!(r.on_input(NextInput::ReadClosed, at(1061)), InputAction::Close(None)));
    assert!(matches!(
        r.on_input(NextInput::WriterClosed, at(1061)),
        InputAction::Close(Some(TriggerReason::WriterClosed))
    ));
    assert!(matches!(r.on_input(NextInput::Timer, at(1100)), InputAction::Rotate));
    assert!(r.after_rotation_attempt(false, at(1100), Some(secs(5))));
    assert!(!r.after_rotation_attempt(true, at(1100), Some(secs(5))));
    assert_eq!(r.rotation.deadline(), Some(at(1105)));
}

#[test]
fn a_tick_queues_what_is_due() {
    let mut r = end(1, 2);
    let plan = r.tick(at(1030), secs(10), secs(30));
    assert_eq!(plan.close, None);
    assert_eq!(plan.frames.len(), 2);
    assert_eq!(plan.frames[0].0, BACKGROUND);
    assert_eq!(plan.frames[0].1.len(), HEADER_SIZE + COVER_BODY_LEN);
    assert_eq!(
        plan.frames[1],
        (INTERACTIVE, build_frame(FrameFamily::Control.code(), ControlMsg::Keepalive.code(), b""))
    );
    let plan = r.tick(at(1040), secs(10), secs(30));
    assert!(plan.stalled);
    assert_eq!(plan.probe, ProbeStage::First);
    let plan = r.tick(at(1060), secs(10), secs(30));
    assert_eq!(plan.close, Some(CloseReason::IdleTimeout));
    assert!(plan.frames.is_empty());
    assert_ne!(build_cover_frame(), build_cover_frame());
}

#[test]
fn a_session_sleeps_until_something_is_due() {
    let mut r = end(1, 2);
    assert_eq!(r.wake_at(None, at(1000)), Some(at(1010)), "the first keepalive");
    assert_eq!(r.wake_at(Some(at(1003)), at(1000)), Some(at(1003)), "the batching window");
    let plan = r.tick(at(1009), secs(10), secs(30));
    assert!(plan.frames.is_empty() && !plan.stalled && plan.close.is_none());
    r.tick(at(1010), secs(25), secs(30));
    assert_eq!(r.wake_at(None, at(1010)), Some(at(1020)), "the keepalive has to be answered");
    r.tick(at(1020), secs(25), secs(30));
    assert_eq!(r.wake_at(None, at(1020)), Some(at(1030)), "the first cover frame");
}

#[test]
fn a_call_shortens_the_wait_for_an_answer() {
    let mut r = end(1, 2);
    r.note_queued(INTERACTIVE, at(1001), secs(2));
    assert_eq!(r.wake_at(None, at(1001)), Some(at(1010)), "no call");
    r.note_queued(REALTIME, at(1001), secs(2));
    assert_eq!(r.wake_at(None, at(1001)), Some(at(1003)), "keepalives come sooner");
    let plan = r.tick(at(1003), secs(2), secs(30));
    assert_eq!(plan.frames.len(), 1);
    assert_eq!(plan.probe, ProbeStage::Quiet);
    r.note_realtime(at(1007), secs(2));
    let plan = r.tick(at(1008), secs(2), secs(30));
    assert_eq!(plan.probe, ProbeStage::First, "five seconds without an answer");
}

#[test]
fn only_data_holds_off_the_ceiling() {
    let mut chatter = plain_end();
    let mut data = plain_end();
    let keepalive = FrameHeader::new(FrameFamily::Control.code(), ControlMsg::Keepalive.code());
    let ack = FrameHeader::new(FrameFamily::Control.code(), ControlMsg::KeepaliveAck.code());
    let padding = FrameHeader::new(FrameFamily::Session.code(), SessionMsg::Padding.code());
    let routing = FrameHeader::new(FrameFamily::Routing.code(), 7);
    for t in [1050, 1100, 1150, 1179] {
        chatter.on_input(NextInput::Byte(1), at(t));
        for h in [keepalive, ack, padding] {
            chatter.route(&h, at(t));
        }
        data.on_input(NextInput::Byte(1), at(t));
        data.route(&routing, at(t));
    }
    assert_eq!(chatter.tick(at(1179), secs(10), secs(30)).close, None);
    assert_eq!(
        chatter.tick(at(1180), secs(10), secs(30)).close,
        Some(CloseReason::LivenessCeiling)
    );
    assert_eq!(data.tick(at(1180), secs(10), secs(30)).close, None);
}

#[test]
fn an_answered_keepalive_goes_on_to_the_dispatcher() {
    let mut r = end(1, 2);
    r.tick(at(1010), secs(10), secs(30));
    assert!(r.liveness.probe.is_armed());
    let h = FrameHeader::new(FrameFamily::Control.code(), ControlMsg::KeepaliveAck.code());
    assert!(matches!(r.route(&h, at(1011)), Route::Dispatch));
    assert!(!r.liveness.probe.is_armed());
}

#[test]
fn write_errors_count_up_to_the_trigger() {
    let mut r = end(1, 2);
    assert!(!r.on_primary_write_error());
    assert!(r.on_primary_write_error());
    assert!(r.on_primary_write_error());
}

fn dispatch(
    r: &mut SessionRunner<(), &'static str>,
    result: DispatchResult,
    leave: bool,
    wire: &mut WireOutbox,
) -> DispatchOutcome {
    let mut budget = PowBudget::new(20);
    r.process_dispatch_result(result, leave, true, &mut budget, wire, at(1001))
}

#[test]
fn responses_are_sealed_only_when_they_are_sent() {
    let mut r = end(1, 2);
    let body = || DispatchResult::Response(build_frame(1, 1, b"r"));
    assert_eq!(r.response_plan(25, 0), ResponsePlan::Skip);
    assert_eq!(r.response_plan(25, 1), ResponsePlan::AskLeave(25 + AEAD_OVERHEAD));
    assert_eq!(r.response_plan(usize::MAX, 1), ResponsePlan::Close);
    assert_eq!(plain_end().response_plan(25, 1), ResponsePlan::AskLeave(25));
    let mut full = WireOutbox::new(0, false);
    assert!(matches!(dispatch(&mut r, body(), true, &mut full), DispatchOutcome::Continue));
    let mut wire = WireOutbox::new(2, false);
    assert!(matches!(dispatch(&mut r, body(), false, &mut wire), DispatchOutcome::Continue));
    assert_eq!(r.crypto.tx_cipher.as_ref().unwrap().frames_processed(), 0);
    assert!(matches!(dispatch(&mut r, body(), true, &mut wire), DispatchOutcome::Continue));
    assert_eq!(wire.writes[0].len(), 25 + AEAD_OVERHEAD);
    assert_eq!(r.crypto.tx_cipher.as_ref().unwrap().frames_processed(), 1);
    let mut gone = WireOutbox::new(2, true);
    assert!(matches!(dispatch(&mut r, body(), true, &mut gone), DispatchOutcome::WriteFailed));
    let garbage = DispatchResult::Response(vec![0; 30]);
    assert!(matches!(dispatch(&mut r, garbage, true, &mut wire), DispatchOutcome::Close));
}

#[test]
fn other_results_of_a_dispatch() {
    let mut r = plain_end();
    let mut wire = WireOutbox::new(4, false);
    assert!(matches!(
        dispatch(&mut r, DispatchResult::NoResponse, true, &mut wire),
        DispatchOutcome::Continue
    ));
    assert!(matches!(
        dispatch(&mut r, DispatchResult::NotHandled, true, &mut wire),
        DispatchOutcome::Continue
    ));
    assert!(matches!(
        dispatch(&mut r, DispatchResult::Violation("why".to_string()), true, &mut wire),
        DispatchOutcome::Violation(w) if w == "why"
    ));
    dispatch(&mut r, DispatchResult::RateLimited, true, &mut wire);
    dispatch(&mut r, DispatchResult::RateLimited, true, &mut wire);
    assert_eq!(
        wire.writes,
        vec![build_frame(FrameFamily::Control.code(), ControlMsg::Backpressure.code(), b"")],
        "signalled once"
    );
    assert!(matches!(
        dispatch(&mut r, DispatchResult::SolvePow(20), true, &mut wire),
        DispatchOutcome::Solve(g) if g.difficulty == 20
    ));
    assert!(matches!(
        dispatch(&mut r, DispatchResult::SolvePow(21), true, &mut wire),
        DispatchOutcome::Continue
    ));
}

#[test]
fn puzzles_share_one_budget() {
    let mut b = PowBudget::new(10);
    let g = b.reserve(6).unwrap();
    assert!(b.reserve(5).is_none());
    assert!(accept_challenge(&mut b, false, 1).is_none());
    let h = accept_challenge(&mut b, true, 4).unwrap();
    assert_eq!(b.active, 10);
    b.release(g);
    b.release(h);
    assert_eq!(b.active, 0);
    assert_eq!(solution_fallback(Some([1; 32]), [2; 32]), [1; 32]);
    assert_eq!(solution_fallback(None, [2; 32]), [2; 32]);
    assert_eq!(encode_routing_frame(3, b"x"), build_frame(FrameFamily::Routing.code(), 3, b"x"));
}

#[test]
fn a_solution_goes_to_the_acceptor_first() {
    let (acceptor, hop, sender) = ([1u8; 32], [2u8; 32], [3u8; 32]);
    assert!(!deliver_solution(&mut None, &acceptor, None, sender, vec![9], 5));

    let mut reg = Some(SessionTxRegistry::with_capacity(1));
    let r = reg.as_mut().unwrap();
    let to_acceptor = r.register(&acceptor, 0);
    let to_hop = r.register(&hop, 0);
    let to_sender = r.register(&sender, 0);
    assert!(deliver_solution(&mut reg, &acceptor, Some(hop), sender, vec![9], 5));
    assert!(deliver_solution(&mut reg, &acceptor, Some(hop), sender, vec![8], 6));
    assert!(deliver_solution(&mut reg, &acceptor, None, sender, vec![7], 7));
    assert!(!deliver_solution(&mut reg, &acceptor, Some(hop), sender, vec![6], 8));
    let r = reg.as_mut().unwrap();
    assert_eq!(r.drain(&acceptor, to_acceptor).frames, vec![(INTERACTIVE, vec![9])]);
    assert_eq!(r.drain(&hop, to_hop).frames, vec![(INTERACTIVE, vec![8])]);
    assert_eq!(r.drain(&sender, to_sender).frames, vec![(INTERACTIVE, vec![7])]);
}

#[test]
fn a_handoff_is_announced_and_acknowledged() {
    let keys = Some(SessionKeys { tx_key: [1; 32], rx_key: [2; 32], session_id: [9; 32] });
    let mut reg: Option<Table<PendingHandoff>> = Some(Table::new());
    let id = [9u8; 32];
    let peer = [3u8; 32];
    assert!(matches!(
        handle_handoff_init_arm(&id, &peer, &keys, &mut reg, &[0; 31]),
        HandoffInitOutcome::Violation
    ));
    assert!(matches!(
        handle_handoff_init_arm(&id, &peer, &None, &mut reg, &[7; 32]),
        HandoffInitOutcome::NoKeys
    ));
    assert!(matches!(
        handle_handoff_init_arm(&id, &peer, &keys, &mut None, &[7; 32]),
        HandoffInitOutcome::NoRegistry
    ));
    match handle_handoff_init_arm(&id, &peer, &keys, &mut reg, &[7; 32]) {
        HandoffInitOutcome::Acknowledge(priority, f) => {
            assert_eq!(priority, INTERACTIVE);
            assert_eq!(
                f,
                build_frame(FrameFamily::Session.code(), SessionMsg::HandoffAck.code(), &[7; 32])
            );
        }
        _ => panic!("expected the acknowledgement"),
    }
    let p = reg.as_ref().unwrap().get(&id).unwrap();
    assert_eq!((p.peer_id, p.nonce, p.rx_key), (peer, [7; 32], [2; 32]));

    let mut w = Some(HandoffAckWaiters::new());
    assert_eq!(handle_handoff_ack_arm(&id, &mut w, &[1; 5]), HandoffAckOutcome::Violation);
    assert_eq!(handle_handoff_ack_arm(&id, &mut w, &[7; 32]), HandoffAckOutcome::NoListener);
    w.as_mut().unwrap().register(&id);
    assert_eq!(handle_handoff_ack_arm(&id, &mut w, &[7; 32]), HandoffAckOutcome::Delivered);
    assert_eq!(handle_handoff_ack_arm(&id, &mut w, &[7; 32]), HandoffAckOutcome::NoListener);
    assert_eq!(w.as_ref().unwrap().received(&id), Some([7; 32]));
    assert_eq!(register_swap_channel(&[0; 32], &keys), None);
    assert_eq!(register_swap_channel(&id, &keys), Some([1; 32]));
    assert_eq!(register_swap_channel(&id, &None), Some([0; 32]));
}

fn notice(node: u8) -> Result<TransportMigrationNotify, String> {
    Ok(TransportMigrationNotify {
        node_id: [node; 32],
        new_transport: "tcp://new:1".to_string(),
        new_expiry_unix: 5,
    })
}

fn step(key: Option<&str>, n: &Result<TransportMigrationNotify, String>) -> MigrationStep {
    handle_transport_migration_notify_arm(&[3; 32], &key.map(str::to_string), n)
}

#[test]
fn a_new_address_needs_the_peer_and_its_key() {
    let violation = |s: MigrationStep| match s {
        MigrationStep::Violation(w) => w,
        _ => panic!("expected a violation"),
    };
    assert_eq!(
        violation(step(None, &Err("short".to_string()))),
        "bad TransportMigrationNotify: short"
    );
    assert_eq!(
        violation(step(None, &notice(4))),
        "TransportMigrationNotify: node_id != session peer_id"
    );
    assert!(matches!(step(None, &notice(3)), MigrationStep::Drop));
    assert!(violation(step(Some("!!"), &notice(3)))
        .starts_with("TransportMigrationNotify: peer_pubkey base64: "));
    assert_eq!(
        violation(step(Some("AAEC"), &notice(3))),
        "TransportMigrationNotify: peer_pubkey len=3 (need 32)"
    );
    let key = "BwcHBwcHBwcHBwcHBwcHBwcHBwcHBwcHBwcHBwcHBwc=";
    assert!(matches!(step(Some(key), &notice(3)), MigrationStep::Verify(k) if k == [7; 32]));
    assert!(matches!(check_pubkey(&Ok(vec![8; 32])), MigrationStep::Verify(k) if k == [8; 32]));

    let mut table = Table::new();
    let n = notice(3).unwrap();
    assert!(!apply_migration(&mut table, &[3; 32], &n, false));
    assert!(table.get(&[3; 32]).is_none());
    assert!(apply_migration(&mut table, &[3; 32], &n, true));
    assert_eq!(table.get(&[3; 32]), Some(&"tcp://new:1".to_string()));
}

#[test]
fn an_endpoint_is_told_to_the_peer_that_asked() {
    let peer = [3u8; 32];
    let mut reg = Some(SessionTxRegistry::new());
    assert_eq!(
        handle_rendezvous_request_arm(&peer, &mut reg, None, 0),
        RendezvousResult::NoController
    );
    let no = Some(RequestOutcome::Rejected(RejectReason::Verify("stale".to_string())));
    assert_eq!(
        handle_rendezvous_request_arm(&peer, &mut reg, no, 0),
        RendezvousResult::Refused(RejectReason::Verify("stale".to_string()))
    );
    let yes = || Some(RequestOutcome::Granted { response: vec![5], port: 1 });
    assert_eq!(
        handle_rendezvous_request_arm(&peer, &mut None, yes(), 0),
        RendezvousResult::NoRegistry
    );
    assert_eq!(
        handle_rendezvous_request_arm(&peer, &mut reg, yes(), 0),
        RendezvousResult::SendFailed
    );
    let id = reg.as_mut().unwrap().register(&peer, 0);
    assert_eq!(handle_rendezvous_request_arm(&peer, &mut reg, yes(), 0), RendezvousResult::Sent);
    let code = SessionMsg::EphemeralEndpointResponse.code();
    assert_eq!(
        reg.as_mut().unwrap().drain(&peer, id).frames,
        vec![(INTERACTIVE, build_frame(FrameFamily::Session.code(), code, &[5]))]
    );
    let names: Vec<&str> = [
        RejectReason::Decode(String::new()),
        RejectReason::Verify(String::new()),
        RejectReason::NotOurTarget,
        RejectReason::RateLimited,
        RejectReason::ConcurrencyExhausted,
        RejectReason::BindFailed(String::new()),
    ]
    .iter()
    .map(|r| r.as_str())
    .collect();
    assert_eq!(
        names,
        vec![
            "decode", "verify", "not_our_target", "rate_limited", "concurrency_exhausted",
            "bind_failed"
        ]
    );
}

#[test]
fn short_names_need_a_session_and_a_peer() {
    let name = |id: u8, peer: u8| {
        register_session_aliases_with_drop_guard(&[id; 32], &[4; 32], &[peer; 32], [1; 8], [2; 8])
    };
    assert!(name(0, 3).is_none());
    assert!(name(9, 0).is_none());
    let (told, guard) = name(9, 3).unwrap();
    assert_eq!((told.local_alias, told.local_node_id), ([1; 8], [4; 32]));
    assert_eq!((told.remote_alias, told.peer_id), ([2; 8], [3; 32]));
    assert_eq!((guard.local_alias, guard.remote_alias), ([1; 8], [2; 8]));
}
