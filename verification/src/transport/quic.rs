//! QUIC.

use crate::bytes::{byte_strings, copy_byte_strings};
use crate::time::Duration;
use crate::transport::dial::{no_addresses, no_addresses_error, Dial, DialState};
use crate::transport::error::{
    connect_timeout, framed, handshake_timeout, joined, quic_error, Failure, TransportError,
};
use crate::transport::tls_config::{client_identity_in, server_identity_in, Key};
use crate::transport::traits::{
    standard_peer_meta, PeerMeta, SocketAddress, Transport, TransportCapabilities,
    TransportHandshakeMode, TransportRuntimeInfo,
};
use crate::transport::uri::TransportUri;
use vstd::prelude::*;
use vstd::string::*;

verus! {

/// QUIC: one byte stream per connection, with datagrams and further streams beside
/// it.
#[derive(Debug, Default)]
pub struct QuicTransport;

impl Transport for QuicTransport {
    open spec fn scheme_text(&self) -> Seq<char> {
        "quic"@
    }

    open spec fn offers(&self) -> TransportCapabilities {
        TransportCapabilities::stream().multiplexed().listening()
    }

    fn scheme(&self) -> (s: &'static str) {
        "quic"
    }

    fn capabilities(&self) -> (c: TransportCapabilities) {
        TransportCapabilities::quic_listener()
    }
}

/// Bytes of datagrams that may wait: enough for a short hiccup, too few to keep
/// pictures that are out of date.
pub const REALTIME_DATAGRAM_BUFFER_BYTES: usize = 65_536;

/// Why a datagram was not sent.
#[derive(Clone, Debug)]
pub enum QuicDatagramSendError {
    /// The peer takes no datagrams.
    UnsupportedByPeer,
    /// This end sends no datagrams.
    Disabled,
    /// The datagram does not fit into one packet.
    TooLarge,
    /// The connection is gone.
    ConnectionLost(String),
}

impl QuicDatagramSendError {
    /// The failure in words.
    pub open spec fn words(self) -> Seq<char> {
        match self {
            QuicDatagramSendError::UnsupportedByPeer => "datagrams not supported by peer"@,
            QuicDatagramSendError::Disabled => "datagram support disabled"@,
            QuicDatagramSendError::TooLarge => "datagram too large"@,
            QuicDatagramSendError::ConnectionLost(m) => "connection lost: "@ + m@,
        }
    }

    /// The failure in words.
    pub fn message(&self) -> (s: String)
        ensures
            s@ == self.words(),
    {
        match self {
            QuicDatagramSendError::UnsupportedByPeer => String::from_str(
                "datagrams not supported by peer",
            ),
            QuicDatagramSendError::Disabled => String::from_str("datagram support disabled"),
            QuicDatagramSendError::TooLarge => String::from_str("datagram too large"),
            QuicDatagramSendError::ConnectionLost(m) => joined("connection lost: ", m.as_str()),
        }
    }
}

/// The protocol that is named when an address names none: that of the web.
pub const DEFAULT_QUIC_ALPN: [u8; 2] = [104, 51];

/// The protocols that are named for an address.
pub open spec fn alpn_for(alpn: Seq<Seq<u8>>) -> Seq<Seq<u8>> {
    if alpn.len() == 0 {
        seq![DEFAULT_QUIC_ALPN@]
    } else {
        alpn
    }
}

/// The protocols that are named for an address.
pub fn effective_quic_alpn(alpn: Vec<Vec<u8>>) -> (v: Vec<Vec<u8>>)
    ensures
        byte_strings(v@) == alpn_for(byte_strings(alpn@)),
{
    if alpn.len() == 0 {
        let mut h3: Vec<u8> = Vec::new();
        h3.push(DEFAULT_QUIC_ALPN[0]);
        h3.push(DEFAULT_QUIC_ALPN[1]);
        assert(h3@ =~= DEFAULT_QUIC_ALPN@);
        let mut v: Vec<Vec<u8>> = Vec::new();
        v.push(h3);
        assert(byte_strings(v@) =~= seq![DEFAULT_QUIC_ALPN@]);
        v
    } else {
        alpn
    }
}

/// What a QUIC connection needs of an address.
pub struct QuicConnectParts<'a> {
    pub host: &'a str,
    pub port: u16,
    pub sni: Option<&'a str>,
    pub alpn: Vec<Vec<u8>>,
}

/// What a QUIC connection needs of an address.
pub fn quic_connect_parts(uri: &TransportUri) -> (r: Result<QuicConnectParts<'_>, TransportError>)
    ensures
        match *uri {
            TransportUri::Quic { host, port, sni, alpn } => {
                &&& r matches Ok(p)
                &&& p.host@ == host@
                &&& p.port == port
                &&& sni matches Some(n) ==> p.sni matches Some(m) && m@ == n@
                &&& sni is None ==> p.sni is None
                &&& byte_strings(p.alpn@) == byte_strings(alpn@)
            },
            _ => r matches Err(e) && e@ == Failure::Unsupported(
                "quic transport cannot handle `"@ + uri.scheme_text() + "`"@,
            ),
        },
{
    match uri {
        TransportUri::Quic { host, port, sni, alpn } => Ok(
            QuicConnectParts {
                host: host.as_str(),
                port: *port,
                sni: match sni {
                    Some(s) => Some(s.as_str()),
                    None => None,
                },
                alpn: copy_byte_strings(alpn),
            },
        ),
        _ => Err(
            TransportError::Unsupported(
                framed("quic transport cannot handle `", uri.scheme(), "`"),
            ),
        ),
    }
}

/// What a QUIC listener needs of an address.
pub fn quic_bind_parts(uri: &TransportUri) -> (r: Result<(&str, u16, Vec<Vec<u8>>), TransportError>)
    ensures
        match *uri {
            TransportUri::Quic { host, port, alpn, .. } => r matches Ok((h, p, a)) && h@ == host@
                && p == port && byte_strings(a@) == byte_strings(alpn@),
            _ => r matches Err(e) && e@ == Failure::Unsupported(
                "quic transport cannot bind `"@ + uri.scheme_text() + "`"@,
            ),
        },
{
    match uri {
        TransportUri::Quic { host, port, alpn, .. } => Ok(
            (host.as_str(), *port, copy_byte_strings(alpn)),
        ),
        _ => Err(
            TransportError::Unsupported(framed("quic transport cannot bind `", uri.scheme(), "`")),
        ),
    }
}

/// The addresses of a host, of which there must be one.
pub fn resolved_addrs(addrs: Vec<SocketAddress>, host: &str, port: u16) -> (r: Result<
    Vec<SocketAddress>,
    TransportError,
>)
    ensures
        match r {
            Ok(v) => addrs@.len() > 0 && v@ == addrs@,
            Err(e) => addrs@.len() == 0 && e@ == no_addresses(host@, port),
        },
{
    if addrs.len() == 0 {
        Err(no_addresses_error(host, port))
    } else {
        Ok(addrs)
    }
}

/// The dial of a QUIC connection: the addresses of the host in order, each within
/// `timeout`. One that takes too long has failed like any other.
pub fn quic_dial(addrs: Vec<SocketAddress>, timeout: Duration, host: &str, port: u16) -> (d: Dial)
    ensures
        d@ == (DialState {
            addrs: addrs@,
            tried: 0,
            last: None,
            timeout,
            abort_on_timeout: false,
            host: host@,
            port,
        }),
{
    Dial::new(addrs, timeout, false, host, port)
}

/// What is known of the peer of a QUIC connection.
pub fn native_quic_peer(
    uri: TransportUri,
    local_addr: Option<SocketAddress>,
    remote_addr: Option<SocketAddress>,
) -> (p: PeerMeta)
    ensures
        p.scheme@ == "quic"@,
        p.uri == uri,
        p.local_addr == local_addr,
        p.remote_addr == remote_addr,
        p.runtime_info == Some(
            TransportRuntimeInfo { handshake_mode: TransportHandshakeMode::QuicNative },
        ),
{
    standard_peer_meta("quic", uri, local_addr, remote_addr, TransportHandshakeMode::QuicNative)
}

/// Bytes that a peer may send on a connection before they are taken, as Chrome
/// has it.
pub const CHROME_INITIAL_MAX_DATA: u64 = 15_728_640;

/// Bytes that a peer may send on one stream before they are taken, as Chrome has
/// it.
pub const CHROME_INITIAL_MAX_STREAM_DATA: u64 = 6_291_456;

/// Streams in both directions that a peer may open, as Chrome has it.
pub const CHROME_INITIAL_MAX_STREAMS_BIDI: u64 = 100;

/// Streams in one direction that a peer may open, as Chrome has it.
pub const CHROME_INITIAL_MAX_STREAMS_UNI: u64 = 100;

/// Milliseconds of silence that end a connection, as Chrome has it.
pub const CHROME_MAX_IDLE_TIMEOUT_MS: u64 = 30_000;

/// Seconds that a handshake, and the first stream after it, may take on a listener.
pub const QUIC_HANDSHAKE_TIMEOUT: u64 = 10;

/// The parameters that a QUIC configuration holds, as far as they are set here.
#[verifier::ext_equal]
pub ghost struct TransportParameters {
    pub max_streams_bidi: u64,
    pub max_streams_uni: u64,
    pub stream_window: u64,
    pub window: u64,
    pub idle_timeout_ms: u64,
    pub datagram_send_buffer: usize,
    pub datagram_receive_buffer: usize,
}

#[verifier::external_type_specification]
#[verifier::external_body]
pub struct ExTransportConfig(quinn::TransportConfig);

#[verifier::external_type_specification]
#[verifier::external_body]
pub struct ExQuinnServerConfig(quinn::ServerConfig);

/// The parameters in a QUIC configuration.
pub uninterp spec fn parameters_in(config: quinn::TransportConfig) -> TransportParameters;

/// Calls the setters of `quinn::TransportConfig` on a default one. Each parameter
/// is then what was set; the numbers must be below two to the power of 62.
#[verifier::external_body]
fn transport_config(
    bidi: u64,
    uni: u64,
    stream_window: u64,
    window: u64,
    idle_ms: u64,
    send_buffer: usize,
    receive_buffer: usize,
) -> (c: quinn::TransportConfig)
    requires
        bidi < 0x4000_0000_0000_0000,
        uni < 0x4000_0000_0000_0000,
        stream_window < 0x4000_0000_0000_0000,
        window < 0x4000_0000_0000_0000,
        idle_ms < 0x4000_0000_0000_0000,
    ensures
        parameters_in(c) == (TransportParameters {
            max_streams_bidi: bidi,
            max_streams_uni: uni,
            stream_window,
            window,
            idle_timeout_ms: idle_ms,
            datagram_send_buffer: send_buffer,
            datagram_receive_buffer: receive_buffer,
        }),
{
    let mut c = quinn::TransportConfig::default();
    c.max_concurrent_bidi_streams(quinn::VarInt::from_u64(bidi).unwrap());
    c.max_concurrent_uni_streams(quinn::VarInt::from_u64(uni).unwrap());
    c.stream_receive_window(quinn::VarInt::from_u64(stream_window).unwrap());
    c.receive_window(quinn::VarInt::from_u64(window).unwrap());
    let idle = std::time::Duration::from_millis(idle_ms);
    c.max_idle_timeout(Some(quinn::IdleTimeout::try_from(idle).unwrap()));
    c.datagram_send_buffer_size(send_buffer);
    c.datagram_receive_buffer_size(Some(receive_buffer));
    c
}

/// The parameters that Chrome has, and small queues for datagrams.
pub open spec fn chrome_parameters() -> TransportParameters {
    TransportParameters {
        max_streams_bidi: CHROME_INITIAL_MAX_STREAMS_BIDI,
        max_streams_uni: CHROME_INITIAL_MAX_STREAMS_UNI,
        stream_window: CHROME_INITIAL_MAX_STREAM_DATA,
        window: CHROME_INITIAL_MAX_DATA,
        idle_timeout_ms: CHROME_MAX_IDLE_TIMEOUT_MS,
        datagram_send_buffer: REALTIME_DATAGRAM_BUFFER_BYTES,
        datagram_receive_buffer: REALTIME_DATAGRAM_BUFFER_BYTES,
    }
}

/// A QUIC configuration with the parameters that Chrome has, and small queues for
/// datagrams.
pub fn chrome_mimic_transport_config() -> (c: quinn::TransportConfig)
    ensures
        parameters_in(c) == chrome_parameters(),
{
    transport_config(
        CHROME_INITIAL_MAX_STREAMS_BIDI,
        CHROME_INITIAL_MAX_STREAMS_UNI,
        CHROME_INITIAL_MAX_STREAM_DATA,
        CHROME_INITIAL_MAX_DATA,
        CHROME_MAX_IDLE_TIMEOUT_MS,
        REALTIME_DATAGRAM_BUFFER_BYTES,
        REALTIME_DATAGRAM_BUFFER_BYTES,
    )
}

/// What a QUIC server configuration holds: the chain and key that it presents, the
/// protocols that it names, and its parameters.
#[verifier::ext_equal]
pub ghost struct QuicServer {
    pub identity: (Seq<Seq<u8>>, Key),
    pub alpn: Seq<Seq<u8>>,
    pub parameters: TransportParameters,
}

/// What a QUIC server configuration holds.
pub uninterp spec fn quic_server_in(config: quinn::ServerConfig) -> QuicServer;

/// Why a TLS configuration cannot carry QUIC; nothing when it can.
pub uninterp spec fn quic_fault(config: rustls::ServerConfig) -> Option<Seq<char>>;

/// Makes a `quinn::ServerConfig` of a copy of a TLS configuration, by `TryFrom` of
/// `quinn::crypto::rustls::QuicServerConfig`, and of transport parameters. It keeps
/// the identity of the TLS configuration and names the given protocols. The key of
/// its address tokens is drawn anew by each call and is not spoken of.
#[verifier::external_body]
fn quic_server(
    config: &rustls::ServerConfig,
    alpn: Vec<Vec<u8>>,
    transport: quinn::TransportConfig,
) -> (r: Result<quinn::ServerConfig, String>)
    ensures
        match quic_fault(*config) {
            None => r matches Ok(c) && quic_server_in(c) == (QuicServer {
                identity: server_identity_in(*config),
                alpn: byte_strings(alpn@),
                parameters: parameters_in(transport),
            }),
            Some(m) => r matches Err(e) && e@ == m,
        },
{
    let mut tls = config.clone();
    tls.alpn_protocols = alpn;
    let crypto = quinn::crypto::rustls::QuicServerConfig::try_from(tls);
    let crypto = std::sync::Arc::new(crypto.map_err(|e| e.to_string())?);
    let mut server = quinn::ServerConfig::with_crypto(crypto);
    server.transport_config(std::sync::Arc::new(transport));
    Ok(server)
}

/// The configuration of a QUIC listener: the node's TLS identity, the protocols of
/// the address, and the parameters that Chrome has.
pub fn build_quic_server_config(config: &rustls::ServerConfig, alpn: Vec<Vec<u8>>) -> (r: Result<
    quinn::ServerConfig,
    TransportError,
>)
    ensures
        match quic_fault(*config) {
            None => r matches Ok(c) && quic_server_in(c) == (QuicServer {
                identity: server_identity_in(*config),
                alpn: alpn_for(byte_strings(alpn@)),
                parameters: chrome_parameters(),
            }),
            Some(m) => r matches Err(e) && e@ == Failure::Quic(m),
        },
{
    match quic_server(config, effective_quic_alpn(alpn), chrome_mimic_transport_config()) {
        Ok(c) => Ok(c),
        Err(e) => Err(TransportError::Quic(e)),
    }
}

#[verifier::external_type_specification]
#[verifier::external_body]
pub struct ExQuinnClientConfig(quinn::ClientConfig);

/// What a QUIC client configuration holds: the chain and key that it presents, if it
/// presents any, the protocols that it names, and its parameters.
#[verifier::ext_equal]
pub ghost struct QuicClient {
    pub identity: Option<(Seq<Seq<u8>>, Key)>,
    pub alpn: Seq<Seq<u8>>,
    pub parameters: TransportParameters,
}

/// What a QUIC client configuration holds.
pub uninterp spec fn quic_client_in(config: quinn::ClientConfig) -> QuicClient;

/// Why a client's TLS configuration cannot carry QUIC; nothing when it can.
pub uninterp spec fn quic_client_fault(config: rustls::ClientConfig) -> Option<Seq<char>>;

/// Makes a `quinn::ClientConfig` of a TLS configuration, by `TryFrom` of
/// `quinn::crypto::rustls::QuicClientConfig`, and of transport parameters. It keeps
/// the identity of the TLS configuration and names the given protocols. Who checks
/// the server's certificate is kept too and is not spoken of.
#[verifier::external_body]
fn quic_client(
    config: rustls::ClientConfig,
    alpn: Vec<Vec<u8>>,
    transport: quinn::TransportConfig,
) -> (r: Result<quinn::ClientConfig, String>)
    ensures
        match quic_client_fault(config) {
            None => r matches Ok(c) && quic_client_in(c) == (QuicClient {
                identity: client_identity_in(config),
                alpn: byte_strings(alpn@),
                parameters: parameters_in(transport),
            }),
            Some(m) => r matches Err(e) && e@ == m,
        },
{
    let mut tls = config;
    tls.alpn_protocols = alpn;
    let crypto = quinn::crypto::rustls::QuicClientConfig::try_from(tls);
    let crypto = std::sync::Arc::new(crypto.map_err(|e| e.to_string())?);
    let mut client = quinn::ClientConfig::new(crypto);
    client.transport_config(std::sync::Arc::new(transport));
    Ok(client)
}

/// The configuration of a QUIC connection: the TLS configuration, whose check of the
/// server's certificate is the caller's, the protocols of the address, and the
/// parameters that Chrome has.
pub fn build_quic_client_config(config: rustls::ClientConfig, alpn: Vec<Vec<u8>>) -> (r: Result<
    quinn::ClientConfig,
    TransportError,
>)
    ensures
        match quic_client_fault(config) {
            None => r matches Ok(c) && quic_client_in(c) == (QuicClient {
                identity: client_identity_in(config),
                alpn: alpn_for(byte_strings(alpn@)),
                parameters: chrome_parameters(),
            }),
            Some(m) => r matches Err(e) && e@ == Failure::Quic(m),
        },
{
    match quic_client(config, effective_quic_alpn(alpn), chrome_mimic_transport_config()) {
        Ok(c) => Ok(c),
        Err(e) => Err(TransportError::Quic(e)),
    }
}

/// Which families of addresses a socket serves.
#[derive(Clone, Copy, Debug, PartialEq, Eq, Structural)]
pub enum SocketFamilies {
    V4,
    V6,
    Dual,
}

/// The families that a client's socket serves, given whether a socket of the sixth
/// version could be opened to the fourth as well.
pub fn client_families(bind_addr: SocketAddress, dual_stack: bool) -> (f: SocketFamilies)
    ensures
        f == match bind_addr {
            SocketAddress::V4 { .. } => SocketFamilies::V4,
            SocketAddress::V6 { .. } => if dual_stack {
                SocketFamilies::Dual
            } else {
                SocketFamilies::V6
            },
        },
{
    match bind_addr {
        SocketAddress::V4 { .. } => SocketFamilies::V4,
        SocketAddress::V6 { .. } => if dual_stack {
            SocketFamilies::Dual
        } else {
            SocketFamilies::V6
        },
    }
}

/// Who begins when two nodes have opened a path to each other at the same time.
/// Both derive it from the same order of nodes, so that exactly one begins.
#[derive(Clone, Copy, Debug, PartialEq, Eq, Structural)]
pub enum PunchedQuicRole {
    Initiator,
    Responder,
}

/// Where the promotion of an opened path to a QUIC connection stands.
#[derive(Clone, Copy, Debug, PartialEq, Eq, Structural)]
pub enum PunchPhase {
    /// The connection is being made.
    Connecting,
    /// The peer's connection is waited for.
    AwaitingPeer,
    /// The peer's handshake runs.
    Handshaking,
    /// The first stream is opened, or waited for.
    Streaming,
    /// There is a connection.
    Finished,
    /// There is none.
    Failed,
}

/// What happened since the last step of a promotion.
pub enum PunchEvent {
    /// A connection from this address asks to be accepted.
    Incoming(SocketAddress),
    /// No more connections will come.
    EndpointClosed,
    /// The connection, or the handshake, is made.
    Connected,
    /// The first stream is there.
    StreamReady,
    /// The step failed.
    Failed(TransportError),
    /// The step took too long.
    TimedOut,
}

/// What to do next in a promotion.
pub enum PunchAction {
    /// Connect to the peer, within the limit for connections.
    Connect,
    /// Wait for the peer's connection, within what is left of the limit for
    /// connections.
    AwaitPeer,
    /// Refuse the connection that came, and go on waiting.
    RefuseAndAwait,
    /// Accept the connection that came, within the limit for handshakes.
    Accept,
    /// Open the first stream, within the limit for handshakes.
    OpenStream,
    /// Wait for the first stream, within the limit for handshakes.
    AcceptStream,
    /// Use the connection.
    Finish,
    /// Give up.
    Fail(TransportError),
}

/// A promotion of an opened path to a QUIC connection.
pub struct PunchedPromotion {
    pub role: PunchedQuicRole,
    pub phase: PunchPhase,
    /// The address on the path's other end.
    pub peer: SocketAddress,
    pub connect_timeout: Duration,
    pub handshake_timeout: Duration,
}

/// What a step of a promotion comes to.
pub ghost enum PunchOutcome {
    /// The promotion goes on in the phase.
    Goes(PunchPhase),
    /// A stranger asked, and is refused.
    Stranger,
    /// The promotion has failed.
    Fails(Failure),
}

impl PunchedPromotion {
    /// Whether the phase can belong to the role: only the one who begins connects,
    /// and only the other waits.
    pub open spec fn well_formed(self) -> bool {
        match self.role {
            PunchedQuicRole::Initiator => self.phase != PunchPhase::AwaitingPeer && self.phase
                != PunchPhase::Handshaking,
            PunchedQuicRole::Responder => self.phase != PunchPhase::Connecting,
        }
    }

    /// What an event comes to. One that does not belong to the phase changes
    /// nothing.
    pub open spec fn outcome(self, event: PunchEvent) -> PunchOutcome {
        match (self.phase, event) {
            (PunchPhase::Finished, _) => PunchOutcome::Goes(PunchPhase::Finished),
            (PunchPhase::Failed, _) => PunchOutcome::Goes(PunchPhase::Failed),
            (_, PunchEvent::Failed(e)) => PunchOutcome::Fails(e@),
            (PunchPhase::Connecting, PunchEvent::Connected) => PunchOutcome::Goes(
                PunchPhase::Streaming,
            ),
            (PunchPhase::Connecting, PunchEvent::TimedOut) => PunchOutcome::Fails(
                Failure::ConnectTimeout(self.connect_timeout),
            ),
            (PunchPhase::AwaitingPeer, PunchEvent::Incoming(a)) => if a == self.peer {
                PunchOutcome::Goes(PunchPhase::Handshaking)
            } else {
                PunchOutcome::Stranger
            },
            (PunchPhase::AwaitingPeer, PunchEvent::EndpointClosed) => PunchOutcome::Fails(
                Failure::Quic("punched QUIC endpoint closed"@),
            ),
            (PunchPhase::AwaitingPeer, PunchEvent::TimedOut) => PunchOutcome::Fails(
                Failure::ConnectTimeout(self.connect_timeout),
            ),
            (PunchPhase::Handshaking, PunchEvent::Connected) => PunchOutcome::Goes(
                PunchPhase::Streaming,
            ),
            (PunchPhase::Handshaking, PunchEvent::TimedOut) => PunchOutcome::Fails(
                Failure::HandshakeTimeout(self.handshake_timeout),
            ),
            (PunchPhase::Streaming, PunchEvent::StreamReady) => PunchOutcome::Goes(
                PunchPhase::Finished,
            ),
            (PunchPhase::Streaming, PunchEvent::TimedOut) => PunchOutcome::Fails(
                Failure::HandshakeTimeout(self.handshake_timeout),
            ),
            _ => PunchOutcome::Goes(self.phase),
        }
    }

    /// Whether `action` is what the phase asks for.
    pub open spec fn asks(self, action: PunchAction) -> bool {
        match self.phase {
            PunchPhase::Connecting => action == PunchAction::Connect,
            PunchPhase::AwaitingPeer => action == PunchAction::AwaitPeer,
            PunchPhase::Handshaking => action == PunchAction::Accept,
            PunchPhase::Streaming => match self.role {
                PunchedQuicRole::Initiator => action == PunchAction::OpenStream,
                PunchedQuicRole::Responder => action == PunchAction::AcceptStream,
            },
            PunchPhase::Finished => action == PunchAction::Finish,
            PunchPhase::Failed => action matches PunchAction::Fail(e) && e@ == Failure::Quic(
                "punched QUIC endpoint closed"@,
            ),
        }
    }

    /// A promotion at its beginning.
    pub fn new(
        role: PunchedQuicRole,
        peer: SocketAddress,
        connect_timeout: Duration,
        handshake_timeout: Duration,
    ) -> (p: PunchedPromotion)
        ensures
            p.well_formed(),
            p == (PunchedPromotion {
                role,
                phase: match role {
                    PunchedQuicRole::Initiator => PunchPhase::Connecting,
                    PunchedQuicRole::Responder => PunchPhase::AwaitingPeer,
                },
                peer,
                connect_timeout,
                handshake_timeout,
            }),
    {
        let phase = match role {
            PunchedQuicRole::Initiator => PunchPhase::Connecting,
            PunchedQuicRole::Responder => PunchPhase::AwaitingPeer,
        };
        PunchedPromotion { role, phase, peer, connect_timeout, handshake_timeout }
    }

    /// What the phase asks for.
    pub fn pending(&self) -> (a: PunchAction)
        ensures
            self.asks(a),
    {
        match self.phase {
            PunchPhase::Connecting => PunchAction::Connect,
            PunchPhase::AwaitingPeer => PunchAction::AwaitPeer,
            PunchPhase::Handshaking => PunchAction::Accept,
            PunchPhase::Streaming => match self.role {
                PunchedQuicRole::Initiator => PunchAction::OpenStream,
                PunchedQuicRole::Responder => PunchAction::AcceptStream,
            },
            PunchPhase::Finished => PunchAction::Finish,
            PunchPhase::Failed => PunchAction::Fail(quic_error("punched QUIC endpoint closed")),
        }
    }

    fn fail(&mut self, e: TransportError) -> (a: PunchAction)
        ensures
            *final(self) == (PunchedPromotion { phase: PunchPhase::Failed, ..*old(self) }),
            a == PunchAction::Fail(e),
    {
        self.phase = PunchPhase::Failed;
        PunchAction::Fail(e)
    }

    fn go(&mut self, phase: PunchPhase) -> (a: PunchAction)
        ensures
            *final(self) == (PunchedPromotion { phase, ..*old(self) }),
            final(self).asks(a),
    {
        self.phase = phase;
        self.pending()
    }

    /// The next step of a promotion.
    pub fn step(&mut self, event: PunchEvent) -> (a: PunchAction)
        requires
            old(self).well_formed(),
        ensures
            final(self).well_formed(),
            match old(self).outcome(event) {
                PunchOutcome::Goes(phase) => *final(self) == (PunchedPromotion {
                    phase,
                    ..*old(self)
                }) && final(self).asks(a),
                PunchOutcome::Stranger => *final(self) == *old(self) && a
                    == PunchAction::RefuseAndAwait,
                PunchOutcome::Fails(f) => a matches PunchAction::Fail(e) && e@ == f && *final(self)
                    == (PunchedPromotion { phase: PunchPhase::Failed, ..*old(self) }),
            },
    {
        match (self.phase, event) {
            (PunchPhase::Finished, _) => self.pending(),
            (PunchPhase::Failed, _) => self.pending(),
            (_, PunchEvent::Failed(e)) => self.fail(e),
            (PunchPhase::Connecting, PunchEvent::Connected) => self.go(PunchPhase::Streaming),
            (PunchPhase::Connecting, PunchEvent::TimedOut) => {
                let e: TransportError = connect_timeout(self.connect_timeout);
                self.fail(e)
            },
            (PunchPhase::AwaitingPeer, PunchEvent::Incoming(a)) => {
                if a == self.peer {
                    self.go(PunchPhase::Handshaking)
                } else {
                    PunchAction::RefuseAndAwait
                }
            },
            (PunchPhase::AwaitingPeer, PunchEvent::EndpointClosed) => {
                self.fail(quic_error("punched QUIC endpoint closed"))
            },
            (PunchPhase::AwaitingPeer, PunchEvent::TimedOut) => {
                let e: TransportError = connect_timeout(self.connect_timeout);
                self.fail(e)
            },
            (PunchPhase::Handshaking, PunchEvent::Connected) => self.go(PunchPhase::Streaming),
            (PunchPhase::Handshaking, PunchEvent::TimedOut) => {
                let e: TransportError = handshake_timeout(self.handshake_timeout);
                self.fail(e)
            },
            (PunchPhase::Streaming, PunchEvent::StreamReady) => self.go(PunchPhase::Finished),
            (PunchPhase::Streaming, PunchEvent::TimedOut) => {
                let e: TransportError = handshake_timeout(self.handshake_timeout);
                self.fail(e)
            },
            _ => self.pending(),
        }
    }
}

/// Where the acceptance of a connection stands.
#[derive(Clone, Copy, Debug, PartialEq, Eq, Structural)]
pub enum AcceptStage {
    /// A connection is waited for.
    Incoming,
    /// The handshake runs.
    Handshake,
    /// The first stream is waited for.
    FirstStream,
}

/// The failure of an acceptance that gets no further: the endpoint is closed, or
/// the peer took too long.
pub fn accept_stalled(stage: AcceptStage) -> (e: TransportError)
    ensures
        e@ == Failure::Quic(
            match stage {
                AcceptStage::Incoming => "endpoint closed"@,
                AcceptStage::Handshake => "quic handshake timed out"@,
                AcceptStage::FirstStream => "quic accept_bi timed out"@,
            },
        ),
{
    match stage {
        AcceptStage::Incoming => quic_error("endpoint closed"),
        AcceptStage::Handshake => quic_error("quic handshake timed out"),
        AcceptStage::FirstStream => quic_error("quic accept_bi timed out"),
    }
}

/// A connection from anyone but the peer on the path never takes its place: it is
/// refused, and the promotion stands where it stood.
pub proof fn strangers_do_not_use_up_the_path(p: PunchedPromotion, a: SocketAddress)
    requires
        p.phase == PunchPhase::AwaitingPeer,
        a != p.peer,
    ensures
        p.outcome(PunchEvent::Incoming(a)) == PunchOutcome::Stranger,
{
}

/// Of the two ends exactly one connects and the other one waits.
pub proof fn exactly_one_end_begins(a: PunchedPromotion, b: PunchedPromotion, x: PunchAction, y: PunchAction)
    requires
        a.well_formed(),
        b.well_formed(),
        a.role != b.role,
        a.asks(x),
        b.asks(y),
    ensures
        !(x == PunchAction::Connect && y == PunchAction::Connect),
        !(x == PunchAction::AwaitPeer && y == PunchAction::AwaitPeer),
        !(x == PunchAction::OpenStream && y == PunchAction::OpenStream),
        !(x == PunchAction::AcceptStream && y == PunchAction::AcceptStream),
{
}

/// A promotion has a connection only after a handshake with the peer and a stream:
/// what goes on to be finished was streaming, and what goes on to stream was
/// connecting or handshaking.
pub proof fn connection_comes_in_order(p: PunchedPromotion, event: PunchEvent)
    ensures
        p.outcome(event) == PunchOutcome::Goes(PunchPhase::Finished) ==> p.phase
            == PunchPhase::Finished || (p.phase == PunchPhase::Streaming && event
            == PunchEvent::StreamReady),
        p.outcome(event) == PunchOutcome::Goes(PunchPhase::Streaming) ==> p.phase
            == PunchPhase::Streaming || p.phase == PunchPhase::Connecting || p.phase
            == PunchPhase::Handshaking,
        p.outcome(event) == PunchOutcome::Goes(PunchPhase::Handshaking) ==> p.phase
            == PunchPhase::Handshaking || (p.phase == PunchPhase::AwaitingPeer && event
            == PunchEvent::Incoming(p.peer)),
{
}

/// The protocols of an address are named as they are, and that of the web where it names
/// none.
pub proof fn protocols_are_named(alpn: Vec<Vec<u8>>, v: Vec<Vec<u8>>, i: int)
    requires
        call_ensures(effective_quic_alpn, (alpn,), v),
    ensures
        alpn@.len() == 0 ==> v@.len() == 1 && v@[0]@ == seq![104u8, 51u8],
        alpn@.len() > 0 ==> v@.len() == alpn@.len(),
        alpn@.len() > 0 && 0 <= i < alpn@.len() ==> v@[i]@ == alpn@[i]@,
{
    let got = byte_strings(v@);
    assert(got.len() == v@.len());
    assert(byte_strings(alpn@).len() == alpn@.len());
    if alpn@.len() == 0 {
        assert(got[0] == v@[0]@);
        assert(DEFAULT_QUIC_ALPN@ =~= seq![104u8, 51u8]);
    } else if 0 <= i < alpn@.len() {
        assert(got[i] == v@[i]@);
        assert(byte_strings(alpn@)[i] == alpn@[i]@);
    }
}

/// Only a QUIC address is served, with all that it names.
pub proof fn quic_serves_quic_addresses(
    u: &TransportUri,
    c: Result<QuicConnectParts, TransportError>,
    b: Result<(&str, u16, Vec<Vec<u8>>), TransportError>,
)
    requires
        call_ensures(quic_connect_parts, (u,), c),
        call_ensures(quic_bind_parts, (u,), b),
    ensures
        c is Ok <==> *u is Quic,
        b is Ok <==> *u is Quic,
        *u is Quic ==> {
            &&& c->Ok_0.host@ == u->Quic_host@ && c->Ok_0.port == u->Quic_port
            &&& c->Ok_0.sni is Some == u->Quic_sni is Some
            &&& u->Quic_sni is Some ==> c->Ok_0.sni->0@ == u->Quic_sni->0@
            &&& byte_strings(c->Ok_0.alpn@) == byte_strings(u->Quic_alpn@)
            &&& (b->Ok_0).0@ == u->Quic_host@ && (b->Ok_0).1 == u->Quic_port
            &&& byte_strings((b->Ok_0).2@) == byte_strings(u->Quic_alpn@)
        },
        c is Err ==> c->Err_0 is Unsupported,
        b is Err ==> b->Err_0 is Unsupported,
{
}

/// A host must have an address; they are dialled in order, and one that takes too long does
/// not keep the next from being tried.
pub proof fn quic_tries_every_address(
    addrs: Vec<SocketAddress>,
    timeout: Duration,
    host: &str,
    port: u16,
    r: Result<Vec<SocketAddress>, TransportError>,
    d: Dial,
)
    requires
        call_ensures(resolved_addrs, (addrs, host, port), r),
        call_ensures(quic_dial, (addrs, timeout, host, port), d),
    ensures
        r is Ok <==> addrs@.len() > 0,
        r is Ok ==> r->Ok_0@ == addrs@,
        r is Err ==> r->Err_0 is Dns,
        d@.addrs == addrs@ && d@.tried == 0 && d@.timeout == timeout && !d@.abort_on_timeout,
{
}

/// The parameters of a connection are those of Chrome, with small queues for datagrams.
pub proof fn connections_look_like_those_of_chrome(c: quinn::TransportConfig)
    requires
        call_ensures(chrome_mimic_transport_config, (), c),
    ensures
        parameters_in(c).max_streams_bidi == 100,
        parameters_in(c).max_streams_uni == 100,
        parameters_in(c).stream_window == 6 * 1024 * 1024,
        parameters_in(c).window == 15 * 1024 * 1024,
        parameters_in(c).idle_timeout_ms == 30_000,
        parameters_in(c).datagram_send_buffer == 64 * 1024,
        parameters_in(c).datagram_receive_buffer == 64 * 1024,
{
}

/// Both ends are configured alike: with the identity of the TLS configuration, the named
/// protocols and the parameters of Chrome; what cannot carry QUIC is a failure of the
/// layer.
pub proof fn both_ends_are_configured_alike(
    s: &rustls::ServerConfig,
    k: rustls::ClientConfig,
    alpn: Vec<Vec<u8>>,
    t: quinn::TransportConfig,
    v: Vec<Vec<u8>>,
    a: Result<quinn::ServerConfig, TransportError>,
    b: Result<quinn::ClientConfig, TransportError>,
)
    requires
        call_ensures(chrome_mimic_transport_config, (), t),
        call_ensures(effective_quic_alpn, (alpn,), v),
        call_ensures(build_quic_server_config, (s, alpn), a),
        call_ensures(build_quic_client_config, (k, alpn), b),
    ensures
        a is Ok <==> quic_fault(*s) is None,
        b is Ok <==> quic_client_fault(k) is None,
        a is Ok ==> {
            let c = quic_server_in(a->Ok_0);
            &&& c.identity == server_identity_in(*s)
            &&& c.alpn == byte_strings(v@)
            &&& c.parameters == parameters_in(t)
        },
        b is Ok ==> {
            let c = quic_client_in(b->Ok_0);
            &&& c.identity == client_identity_in(k)
            &&& c.alpn == byte_strings(v@)
            &&& c.parameters == parameters_in(t)
        },
        a is Err ==> a->Err_0 is Quic,
        b is Err ==> b->Err_0 is Quic,
{
}

/// A socket of the fourth version serves it alone, one of the sixth both where it can.
pub proof fn a_socket_serves_its_families(addr: SocketAddress, dual: bool, f: SocketFamilies)
    requires
        call_ensures(client_families, (addr, dual), f),
    ensures
        f == SocketFamilies::V4 <==> addr is V4,
        f == SocketFamilies::Dual <==> addr is V6 && dual,
        f == SocketFamilies::V6 <==> addr is V6 && !dual,
{
}

/// The course of a promotion: who begins connects and opens the first stream, the other
/// waits for the peer on the path alone, accepts its handshake and then its stream; with
/// the stream there is a connection.
pub proof fn how_a_path_is_promoted(p: &mut PunchedPromotion, event: PunchEvent, a: PunchAction)
    requires
        old(p).well_formed(),
        call_ensures(PunchedPromotion::step, (p, event), a),
    ensures
        old(p).phase == PunchPhase::Connecting && event is Connected ==> a
            == PunchAction::OpenStream,
        old(p).phase == PunchPhase::AwaitingPeer && event == PunchEvent::Incoming(old(p).peer)
            ==> a == PunchAction::Accept && final(p).phase == PunchPhase::Handshaking,
        old(p).phase == PunchPhase::AwaitingPeer && event is Incoming && event->Incoming_0 != old(p).peer ==> a == PunchAction::RefuseAndAwait && *final(p) == *old(p),
        old(p).phase == PunchPhase::Handshaking && event is Connected ==> a
            == PunchAction::AcceptStream,
        old(p).phase == PunchPhase::Streaming && event is StreamReady ==> a
            == PunchAction::Finish,
        a == PunchAction::Finish ==> old(p).phase == PunchPhase::Finished || old(p).phase
            == PunchPhase::Streaming && event is StreamReady,
        a == PunchAction::Accept ==> old(p).phase == PunchPhase::Handshaking || old(p).phase
            == PunchPhase::AwaitingPeer && event == PunchEvent::Incoming(old(p).peer),
        final(p).role == old(p).role && final(p).peer == old(p).peer,
        final(p).connect_timeout == old(p).connect_timeout && final(p).handshake_timeout == old(p).handshake_timeout,
{
}

/// Why a promotion fails: with the failure of its step, or because it took too long, for a
/// connection by one limit and for the handshake and the stream by the other.
pub proof fn why_a_promotion_fails(p: &mut PunchedPromotion, event: PunchEvent, a: PunchAction)
    requires
        old(p).well_formed(),
        old(p).phase != PunchPhase::Finished,
        old(p).phase != PunchPhase::Failed,
        call_ensures(PunchedPromotion::step, (p, event), a),
    ensures
        event is Failed ==> a is Fail && a->Fail_0@ == event->Failed_0@,
        event is TimedOut && (old(p).phase == PunchPhase::Connecting || old(p).phase
            == PunchPhase::AwaitingPeer) ==> a == PunchAction::Fail(
            TransportError::ConnectTimeout(old(p).connect_timeout),
        ),
        event is TimedOut && (old(p).phase == PunchPhase::Handshaking || old(p).phase
            == PunchPhase::Streaming) ==> a == PunchAction::Fail(
            TransportError::HandshakeTimeout(old(p).handshake_timeout),
        ),
        event is EndpointClosed && old(p).phase == PunchPhase::AwaitingPeer ==> a is Fail
            && a->Fail_0 is Quic,
        a is Fail <==> final(p).phase == PunchPhase::Failed,
{
}

/// Of two ends with different roles one connects and the other waits.
pub proof fn one_end_connects_and_one_waits(
    peer: SocketAddress,
    other: SocketAddress,
    c: Duration,
    h: Duration,
    a: PunchedPromotion,
    b: PunchedPromotion,
    x: PunchAction,
    y: PunchAction,
)
    requires
        call_ensures(PunchedPromotion::new, (PunchedQuicRole::Initiator, peer, c, h), a),
        call_ensures(PunchedPromotion::new, (PunchedQuicRole::Responder, other, c, h), b),
        call_ensures(PunchedPromotion::pending, (&a,), x),
        call_ensures(PunchedPromotion::pending, (&b,), y),
    ensures
        x == PunchAction::Connect,
        y == PunchAction::AwaitPeer,
        a.peer == peer && b.peer == other,
{
}

} // verus!
