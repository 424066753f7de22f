use veil::transport::hint_registry::TransportHintRegistry;
use veil::transport::registry::{plaintext_warning, KnownTransport, TransportRegistry};
use veil::transport::tcp::TcpTransport;
use veil::transport::traits::{
    standard_peer_meta, Transport, TransportCapabilities, TransportHandshakeMode,
};
use veil::transport::uri::TransportUri;

fn assert_listener_stream_capabilities(capabilities: &TransportCapabilities) {
    assert!(capabilities.listener);
    assert!(capabilities.byte_stream);
    assert!(capabilities.runtime_metadata);
}

fn assert_tcp_listener_capabilities(capabilities: &TransportCapabilities) {
    assert_listener_stream_capabilities(capabilities);
    assert!(!capabilities.messages);
    assert!(!capabilities.datagrams);
    assert!(!capabilities.substreams);
}

fn assert_ws_listener_capabilities(capabilities: &TransportCapabilities) {
    assert_listener_stream_capabilities(capabilities);
    assert!(capabilities.messages);
    assert!(!capabilities.datagrams);
    assert!(!capabilities.substreams);
}

fn assert_quic_listener_capabilities(capabilities: &TransportCapabilities) {
    assert_listener_stream_capabilities(capabilities);
    assert!(capabilities.datagrams);
    assert!(capabilities.substreams);
    assert!(!capabilities.messages);
}

#[test]
fn representative_transport_factory_capabilities_are_stable() {
    let registry = TransportRegistry::with_defaults();

    assert_tcp_listener_capabilities(
        &registry.get("tcp").expect("tcp transport").capabilities(),
    );
    assert_ws_listener_capabilities(&registry.get("ws").expect("ws transport").capabilities());
    assert_quic_listener_capabilities(
        &registry.get("quic").expect("quic transport").capabilities(),
    );
}

#[test]
fn every_default_scheme_answers_to_its_name() {
    let registry = TransportRegistry::with_defaults();
    for name in [
        "tcp", "tls", "quic", "unix", "socks", "sockstls", "ws", "wss", "obfs4-tcp",
        "webtunnel+wss",
    ] {
        assert_eq!(registry.get(name).expect("registered").scheme(), name);
    }
    assert!(!registry.get("socks").expect("registered").capabilities().listener);
    assert!(!registry.get("sockstls").expect("registered").capabilities().listener);
}

#[test]
fn unknown_schemes_are_named_in_the_error() {
    let mut registry = TransportRegistry::new();
    match registry.get("tcp") {
        Ok(_) => panic!("an empty registry had a way"),
        Err(e) => assert_eq!(
            e.message(),
            "unsupported transport operation: scheme `tcp` is not registered"
        ),
    }
    registry.register(KnownTransport::Tcp(TcpTransport));
    assert!(registry.get("tcp").is_ok());
    assert!(registry.get("tls").is_err());
}

fn tcp(host: &str) -> TransportUri {
    TransportUri::Tcp { host: host.to_string(), port: 1 }
}

#[test]
fn outcomes_are_told_only_of_ways_that_exist() {
    let mut registry =
        TransportRegistry::with_defaults().with_hint_registry(TransportHintRegistry::new());
    registry.note_connect(&tcp("h"), true);
    registry.note_connect(&tcp("h"), false);
    let snap = registry.hints().expect("attached").ranked_snapshot();
    assert_eq!(snap.len(), 1);
    assert_eq!((snap[0].1.success, snap[0].1.failure), (1, 1));

    let mut bare: TransportRegistry<KnownTransport, TransportHintRegistry> =
        TransportRegistry::new().with_hint_registry(TransportHintRegistry::new());
    bare.note_connect(&tcp("h"), true);
    assert!(bare.hints().expect("attached").ranked_snapshot().is_empty());
    assert!(bare.route(&tcp("h")).is_err());
    let mut silent = TransportRegistry::with_defaults();
    silent.note_connect(&tcp("h"), true);
    assert!(silent.hints().is_none());
}

#[test]
fn only_plain_traffic_to_others_is_warned_of() {
    let w = plaintext_warning(&tcp("203.0.113.5"), "connect").expect("a warning");
    assert!(w.starts_with(
        "transport.plaintext_non_localhost: connect scheme=tcp host=203.0.113.5 "
    ));
    assert!(w.ends_with("switch to tls://, quic://, wss://, or sockstls:// for production"));
    assert!(plaintext_warning(&tcp("127.0.0.1"), "connect").is_none());
    assert!(plaintext_warning(&tcp("0.0.0.0"), "listen").is_some());
    let quic = TransportUri::Quic {
        host: "203.0.113.5".to_string(),
        port: 1,
        sni: None,
        alpn: vec![],
    };
    assert!(plaintext_warning(&quic, "connect").is_none());
}

#[test]
fn peers_tell_how_they_were_reached() {
    let p = standard_peer_meta(
        "ws",
        tcp("h"),
        None,
        None,
        TransportHandshakeMode::WebSocketStandard,
    );
    assert_eq!(p.scheme, "ws");
    assert_eq!(
        p.runtime_info.map(|i| i.handshake_mode),
        Some(TransportHandshakeMode::WebSocketStandard)
    );
}
