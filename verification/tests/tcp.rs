use veil::time::Duration;
use veil::transport::dial::{Dial, DialEvent, DialStep};
use veil::transport::ech_dns::{ech_from_answers, ech_from_lookup, Answer, SvcParam};
use veil::transport::error::{
    connect_timeout, handshake_timeout, io_other_error, quic_error, tls_error, unsupported,
    websocket_error, TransportError,
};
use veil::transport::obfs4_tcp::{
    handshake_result, obfs4_parts, required_psk, HandshakeEnd, HandshakeSide,
};
use veil::transport::quic::quic_dial;
use veil::transport::tcp::{
    peer_meta, tcp_bind_parts, tcp_bind_plan, tcp_connect_parts, tcp_dial, uplink_sndbuf, BindPlan,
    DOWNLINK_MSS_CLAMP, MIN_SNDBUF, UPLINK_SNDBUF_CLAMP,
};
use veil::transport::traits::SocketAddress;
use veil::transport::uri::TransportUri;

fn addr(port: u16) -> SocketAddress {
    SocketAddress::V4 { ip: 1, port }
}

fn io(m: &str) -> DialEvent {
    DialEvent::Failed(io_other_error(m))
}

fn failed(s: DialStep) -> String {
    match s {
        DialStep::Fail(e) => e.message(),
        _ => panic!("expected a failure"),
    }
}

fn tried(s: DialStep) -> SocketAddress {
    match s {
        DialStep::Try(a) => a,
        _ => panic!("expected an attempt"),
    }
}

#[test]
fn a_dial_takes_the_first_address_that_answers() {
    let mut d = tcp_dial(vec![addr(1), addr(2), addr(3)], Duration::from_secs(10), "h", 5);
    assert_eq!(tried(d.advance()), addr(1));
    assert_eq!(tried(d.step(io("refused"))), addr(2));
    assert!(matches!(d.step(DialEvent::Connected), DialStep::Use(a) if a == addr(2)));
}

#[test]
fn a_dial_fails_as_its_last_address_did() {
    let mut d = tcp_dial(vec![addr(1), addr(2)], Duration::from_secs(10), "h", 5);
    d.advance();
    d.step(io("first"));
    assert_eq!(failed(d.step(io("second"))), "io error: second");
    let mut none = tcp_dial(vec![], Duration::from_secs(10), "h", 5);
    assert_eq!(
        failed(none.advance()),
        "dns resolution failed: no addresses resolved for h:5"
    );
}

#[test]
fn tcp_gives_up_on_a_timeout_and_quic_goes_on() {
    let two = || vec![addr(1), addr(2)];
    let mut t: Dial = tcp_dial(two(), Duration::from_secs(10), "h", 5);
    t.advance();
    assert_eq!(failed(t.step(DialEvent::TimedOut)), "connection timed out after 10s");
    let mut q: Dial = quic_dial(two(), Duration::from_secs(10), "h", 5);
    q.advance();
    assert_eq!(tried(q.step(DialEvent::TimedOut)), addr(2));
    assert_eq!(failed(q.step(DialEvent::TimedOut)), "connection timed out after 10s");
}

#[test]
fn a_listener_without_addresses_asks_by_name() {
    assert!(matches!(tcp_bind_plan(vec![], "h", 1), BindPlan::ByName));
    match tcp_bind_plan(vec![addr(1)], "h", 1) {
        BindPlan::ByAddress(mut d) => assert_eq!(tried(d.advance()), addr(1)),
        BindPlan::ByName => panic!("there was an address"),
    }
}

#[test]
fn the_send_buffer_has_a_floor_and_a_default() {
    assert_eq!(DOWNLINK_MSS_CLAMP, 1200);
    assert_eq!(UPLINK_SNDBUF_CLAMP, 256 * 1024);
    assert_eq!(uplink_sndbuf(None), UPLINK_SNDBUF_CLAMP);
    assert_eq!(uplink_sndbuf(Some(" 131072\n")), 131_072);
    assert_eq!(uplink_sndbuf(Some("65536")), MIN_SNDBUF);
    assert_eq!(uplink_sndbuf(Some("65535")), UPLINK_SNDBUF_CLAMP);
    assert_eq!(uplink_sndbuf(Some("lots")), UPLINK_SNDBUF_CLAMP);
}

fn words<T>(r: Result<T, TransportError>) -> String {
    match r {
        Ok(_) => panic!("expected a failure"),
        Err(e) => e.message(),
    }
}

#[test]
fn tcp_takes_only_its_own_addresses() {
    let uri = TransportUri::Tcp { host: "h".to_string(), port: 7 };
    assert_eq!(tcp_connect_parts(&uri).unwrap(), ("h", 7));
    assert_eq!(tcp_bind_parts(&uri).unwrap(), ("h", 7));
    let other = TransportUri::Unix { path: "/x".to_string() };
    assert_eq!(
        words(tcp_connect_parts(&other)),
        "unsupported transport operation: tcp transport cannot handle `unix`"
    );
    assert_eq!(
        words(tcp_bind_parts(&other)),
        "unsupported transport operation: tcp transport cannot bind `unix`"
    );
    assert_eq!(peer_meta("tcp", uri, None, None).scheme, "tcp");
}

#[test]
fn the_obfuscating_handshake_needs_a_secret() {
    assert_eq!(required_psk(&Some([5; 32])).unwrap(), [5; 32]);
    assert_eq!(
        words(required_psk(&None)),
        "unsupported transport operation: obfs4-tcp transport requires `obfs4_psk` set in TransportContext"
    );
    let uri = TransportUri::Obfs4Tcp { host: "h".to_string(), port: 7 };
    assert_eq!(obfs4_parts(&uri).unwrap(), ("h", 7));
    let tcp = TransportUri::Tcp { host: "h".to_string(), port: 7 };
    assert_eq!(
        words(obfs4_parts(&tcp)),
        "unsupported transport operation: obfs4-tcp transport cannot handle `tcp`"
    );
}

#[test]
fn a_failed_handshake_says_which_side_failed() {
    assert!(handshake_result(HandshakeSide::Server, HandshakeEnd::Done).is_ok());
    assert_eq!(
        words(handshake_result(HandshakeSide::Client, HandshakeEnd::TimedOut)),
        "tls error: obfs4 client handshake timed out"
    );
    assert_eq!(
        words(handshake_result(HandshakeSide::Server, HandshakeEnd::TimedOut)),
        "tls error: obfs4 server handshake timed out"
    );
    let bad = || HandshakeEnd::Failed("bad mac".to_string());
    assert_eq!(
        words(handshake_result(HandshakeSide::Client, bad())),
        "tls error: obfs4 client handshake: bad mac"
    );
    assert_eq!(
        words(handshake_result(HandshakeSide::Server, bad())),
        "tls error: obfs4 server handshake: bad mac"
    );
}

#[test]
fn every_error_has_words() {
    assert_eq!(
        TransportError::InvalidUri("u".to_string()).message(),
        "invalid transport URI: u"
    );
    assert_eq!(TransportError::Dns("d".to_string()).message(), "dns resolution failed: d");
    assert_eq!(
        connect_timeout(Duration::from_millis(1500)).message(),
        "connection timed out after 1.5s"
    );
    assert_eq!(
        handshake_timeout(Duration::from_millis(250)).message(),
        "handshake timed out after 250ms"
    );
    assert_eq!(io_other_error("i").message(), "io error: i");
    assert_eq!(tls_error("t").message(), "tls error: t");
    assert_eq!(quic_error("q").message(), "quic error: q");
    assert_eq!(websocket_error("w").message(), "websocket error: w");
    assert_eq!(unsupported("n").message(), "unsupported transport operation: n");
}

fn param(named: bool, ech: Option<Vec<u8>>) -> SvcParam {
    SvcParam { named_ech: named, ech }
}

#[test]
fn the_first_key_that_is_not_empty_counts() {
    let answers = vec![
        Answer::Other,
        Answer::Https(vec![param(false, Some(vec![1])), param(true, None)]),
        Answer::Https(vec![param(true, Some(vec![])), param(true, Some(vec![2, 3]))]),
        Answer::Https(vec![param(true, Some(vec![4]))]),
    ];
    assert_eq!(ech_from_answers(&answers), Some(vec![2, 3]));
    assert_eq!(ech_from_answers(&vec![Answer::Other]), None);
    assert_eq!(ech_from_lookup(None), None);
    assert_eq!(ech_from_lookup(Some(answers)), Some(vec![2, 3]));
}
