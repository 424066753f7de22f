use veil::time::Duration;
use veil::transport::context::TlsContext;
use veil::transport::error::TransportError;
use veil::transport::quic::{
    accept_stalled, build_quic_client_config, build_quic_server_config,
    chrome_mimic_transport_config, client_families, effective_quic_alpn, native_quic_peer, quic_bind_parts, quic_connect_parts, resolved_addrs,
    AcceptStage, PunchAction, PunchEvent, PunchPhase, PunchedPromotion, PunchedQuicRole,
    QuicDatagramSendError, SocketFamilies, CHROME_INITIAL_MAX_DATA,
    CHROME_INITIAL_MAX_STREAMS_BIDI, CHROME_INITIAL_MAX_STREAMS_UNI,
    CHROME_INITIAL_MAX_STREAM_DATA, CHROME_MAX_IDLE_TIMEOUT_MS, DEFAULT_QUIC_ALPN,
    REALTIME_DATAGRAM_BUFFER_BYTES,
};
use veil::transport::traits::{SocketAddress, TransportHandshakeMode};
use veil::transport::uri::TransportUri;

#[test]
fn chrome_mimic_constants_match_published_values() {
    assert_eq!(CHROME_INITIAL_MAX_DATA, 15 * 1024 * 1024);
    assert_eq!(CHROME_INITIAL_MAX_STREAM_DATA, 6 * 1024 * 1024);
    assert_eq!(CHROME_INITIAL_MAX_STREAMS_BIDI, 100);
    assert_eq!(CHROME_INITIAL_MAX_STREAMS_UNI, 100);
    assert_eq!(CHROME_MAX_IDLE_TIMEOUT_MS, 30_000);
}

#[test]
fn chrome_mimic_transport_config_constructs_ok() {
    let cfg = chrome_mimic_transport_config();
    let shown = format!("{cfg:?}");
    assert!(shown.contains(&CHROME_INITIAL_MAX_DATA.to_string()));
    assert!(shown.contains(&CHROME_INITIAL_MAX_STREAM_DATA.to_string()));
    assert!(shown.contains(&CHROME_MAX_IDLE_TIMEOUT_MS.to_string()));
    assert!(shown.contains(&REALTIME_DATAGRAM_BUFFER_BYTES.to_string()));
}

#[test]
fn default_alpn_is_h3_only() {
    assert_eq!(&DEFAULT_QUIC_ALPN, b"h3");
    let effective = effective_quic_alpn(vec![]);
    assert_eq!(effective, vec![b"h3".to_vec()]);
}

#[test]
fn user_supplied_alpn_overrides_default() {
    let user = vec![b"my-test-proto".to_vec()];
    let effective = effective_quic_alpn(user.clone());
    assert_eq!(effective, user);
}

#[test]
fn a_listener_is_configured_from_the_tls_material() {
    let tls = match TlsContext::for_debug() {
        Ok(t) => t,
        Err(e) => panic!("{e:?}"),
    };
    assert!(build_quic_server_config(&tls.server_config, vec![]).is_ok());
}

#[test]
fn a_connection_is_configured_from_the_tls_material() {
    let tls = match TlsContext::for_debug() {
        Ok(t) => t,
        Err(e) => panic!("{e:?}"),
    };
    let config = build_quic_client_config((*tls.client_config).clone(), vec![]);
    match config {
        Ok(c) => {
            let shown = format!("{c:?}");
            assert!(shown.contains(&CHROME_INITIAL_MAX_DATA.to_string()));
        }
        Err(e) => panic!("{e:?}"),
    }
}

fn quic_uri() -> TransportUri {
    TransportUri::Quic {
        host: "h".to_string(),
        port: 7,
        sni: Some("s".to_string()),
        alpn: vec![b"x".to_vec()],
    }
}

#[test]
fn quic_takes_only_its_own_addresses() {
    let uri = quic_uri();
    match quic_connect_parts(&uri) {
        Ok(p) => {
            assert_eq!((p.host, p.port, p.sni), ("h", 7, Some("s")));
            assert_eq!(p.alpn, vec![b"x".to_vec()]);
        }
        Err(e) => panic!("{e:?}"),
    }
    match quic_bind_parts(&uri) {
        Ok((h, p, a)) => assert_eq!((h, p, a), ("h", 7, vec![b"x".to_vec()])),
        Err(e) => panic!("{e:?}"),
    }
    let tcp = TransportUri::Tcp { host: "h".to_string(), port: 1 };
    match quic_connect_parts(&tcp) {
        Ok(_) => panic!("tcp was taken"),
        Err(e) => assert_eq!(
            e.message(),
            "unsupported transport operation: quic transport cannot handle `tcp`"
        ),
    }
    match quic_bind_parts(&tcp) {
        Ok(_) => panic!("tcp was taken"),
        Err(e) => assert_eq!(
            e.message(),
            "unsupported transport operation: quic transport cannot bind `tcp`"
        ),
    }
}

fn addr(port: u16) -> SocketAddress {
    SocketAddress::V4 { ip: 0x7f00_0001, port }
}

#[test]
fn a_host_without_addresses_is_an_error() {
    assert_eq!(resolved_addrs(vec![addr(1)], "h", 2).unwrap(), vec![addr(1)]);
    let e = resolved_addrs(vec![], "h", 2).unwrap_err();
    assert_eq!(e.message(), "dns resolution failed: no addresses resolved for h:2");
}

#[test]
fn datagram_failures_have_words() {
    assert_eq!(
        QuicDatagramSendError::UnsupportedByPeer.message(),
        "datagrams not supported by peer"
    );
    assert_eq!(QuicDatagramSendError::Disabled.message(), "datagram support disabled");
    assert_eq!(QuicDatagramSendError::TooLarge.message(), "datagram too large");
    assert_eq!(
        QuicDatagramSendError::ConnectionLost("reset".to_string()).message(),
        "connection lost: reset"
    );
}

#[test]
fn families_follow_the_bound_address() {
    assert_eq!(client_families(addr(0), true), SocketFamilies::V4);
    let six = SocketAddress::V6 { ip6: 0, port: 0, flowinfo: 0, scope_id: 0 };
    assert_eq!(client_families(six, true), SocketFamilies::Dual);
    assert_eq!(client_families(six, false), SocketFamilies::V6);
}

#[test]
fn quic_peers_tell_that_they_are_native() {
    let p = native_quic_peer(quic_uri(), None, Some(addr(1)));
    assert_eq!(p.scheme, "quic");
    assert_eq!(
        p.runtime_info.map(|i| i.handshake_mode),
        Some(TransportHandshakeMode::QuicNative)
    );
}

fn promotion(role: PunchedQuicRole) -> PunchedPromotion {
    PunchedPromotion::new(role, addr(9), Duration::from_secs(10), Duration::from_secs(4))
}

#[test]
fn an_initiator_connects_and_opens() {
    let mut p = promotion(PunchedQuicRole::Initiator);
    assert!(matches!(p.pending(), PunchAction::Connect));
    assert!(matches!(p.step(PunchEvent::Connected), PunchAction::OpenStream));
    assert!(matches!(p.step(PunchEvent::StreamReady), PunchAction::Finish));
    assert_eq!(p.phase, PunchPhase::Finished);
}

#[test]
fn a_responder_refuses_strangers_and_accepts_the_peer() {
    let mut p = promotion(PunchedQuicRole::Responder);
    assert!(matches!(p.pending(), PunchAction::AwaitPeer));
    assert!(matches!(p.step(PunchEvent::Incoming(addr(8))), PunchAction::RefuseAndAwait));
    assert!(matches!(p.step(PunchEvent::Incoming(addr(9))), PunchAction::Accept));
    assert!(matches!(p.step(PunchEvent::Connected), PunchAction::AcceptStream));
    assert!(matches!(p.step(PunchEvent::StreamReady), PunchAction::Finish));
}

fn failure(a: PunchAction) -> String {
    match a {
        PunchAction::Fail(e) => e.message(),
        _ => panic!("expected a failure"),
    }
}

#[test]
fn a_promotion_fails_by_the_limit_that_ran_out() {
    let mut p = promotion(PunchedQuicRole::Initiator);
    assert_eq!(failure(p.step(PunchEvent::TimedOut)), "connection timed out after 10s");
    let mut p = promotion(PunchedQuicRole::Initiator);
    p.step(PunchEvent::Connected);
    assert_eq!(failure(p.step(PunchEvent::TimedOut)), "handshake timed out after 4s");
    let mut p = promotion(PunchedQuicRole::Responder);
    assert_eq!(failure(p.step(PunchEvent::TimedOut)), "connection timed out after 10s");
    let mut p = promotion(PunchedQuicRole::Responder);
    p.step(PunchEvent::Incoming(addr(9)));
    assert_eq!(failure(p.step(PunchEvent::TimedOut)), "handshake timed out after 4s");
    let mut p = promotion(PunchedQuicRole::Responder);
    assert_eq!(
        failure(p.step(PunchEvent::EndpointClosed)),
        "quic error: punched QUIC endpoint closed"
    );
    let mut p = promotion(PunchedQuicRole::Responder);
    assert_eq!(
        failure(p.step(PunchEvent::Failed(TransportError::Quic("x".to_string())))),
        "quic error: x"
    );
    assert_eq!(p.phase, PunchPhase::Failed);
}

#[test]
fn an_acceptance_that_stalls_says_where() {
    assert_eq!(accept_stalled(AcceptStage::Incoming).message(), "quic error: endpoint closed");
    assert_eq!(
        accept_stalled(AcceptStage::Handshake).message(),
        "quic error: quic handshake timed out"
    );
    assert_eq!(
        accept_stalled(AcceptStage::FirstStream).message(),
        "quic error: quic accept_bi timed out"
    );
}
