//! What a way of reaching peers offers, and what is known of a peer.

use crate::transport::uri::TransportUri;
use vstd::prelude::*;

verus! {

/// What a way of reaching peers, or a connection, offers.
#[derive(Clone, Copy, Debug, PartialEq, Eq, Structural)]
pub struct TransportCapabilities {
    /// Connections can be accepted.
    pub listener: bool,
    /// Bytes flow in both directions.
    pub byte_stream: bool,
    /// Connections tell how they were made.
    pub runtime_metadata: bool,
    /// Whole messages can be sent.
    pub messages: bool,
    /// Single datagrams can be sent.
    pub datagrams: bool,
    /// Further streams can be opened.
    pub substreams: bool,
}

impl TransportCapabilities {
    /// Byte streams, without listening.
    pub open spec fn stream() -> TransportCapabilities {
        TransportCapabilities {
            listener: false,
            byte_stream: true,
            runtime_metadata: true,
            messages: false,
            datagrams: false,
            substreams: false,
        }
    }

    /// The same with listening.
    pub open spec fn listening(self) -> TransportCapabilities {
        TransportCapabilities { listener: true, ..self }
    }

    /// The same with whole messages.
    pub open spec fn with_messages(self) -> TransportCapabilities {
        TransportCapabilities { messages: true, ..self }
    }

    /// The same with datagrams and further streams.
    pub open spec fn multiplexed(self) -> TransportCapabilities {
        TransportCapabilities { datagrams: true, substreams: true, ..self }
    }

    /// What a connection of bytes offers.
    pub fn stream_connection() -> (c: TransportCapabilities)
        ensures
            c == Self::stream(),
    {
        TransportCapabilities {
            listener: false,
            byte_stream: true,
            runtime_metadata: true,
            messages: false,
            datagrams: false,
            substreams: false,
        }
    }

    /// What a way offers that connects and listens for connections of bytes.
    pub fn stream_listener() -> (c: TransportCapabilities)
        ensures
            c == Self::stream().listening(),
    {
        TransportCapabilities { listener: true, ..Self::stream_connection() }
    }

    /// What a QUIC connection offers.
    pub fn quic_connection() -> (c: TransportCapabilities)
        ensures
            c == Self::stream().multiplexed(),
    {
        TransportCapabilities { datagrams: true, substreams: true, ..Self::stream_connection() }
    }

    /// What QUIC offers as a way.
    pub fn quic_listener() -> (c: TransportCapabilities)
        ensures
            c == Self::stream().multiplexed().listening(),
    {
        TransportCapabilities { listener: true, ..Self::quic_connection() }
    }

    /// What WebSocket offers as a way.
    pub fn websocket_listener() -> (c: TransportCapabilities)
        ensures
            c == Self::stream().with_messages().listening(),
    {
        TransportCapabilities { messages: true, ..Self::stream_listener() }
    }
}

/// A way of reaching peers.
pub trait Transport {
    /// The name by which addresses choose this way.
    spec fn scheme_text(&self) -> Seq<char>;

    /// What the way offers.
    spec fn offers(&self) -> TransportCapabilities;

    /// The name by which addresses choose this way.
    fn scheme(&self) -> (s: &'static str)
        ensures
            s@ == self.scheme_text(),
    ;

    /// What the way offers.
    fn capabilities(&self) -> (c: TransportCapabilities)
        ensures
            c == self.offers(),
    ;
}

/// An address of the internet and a port on it.
#[derive(Clone, Copy, Debug, PartialEq, Eq, Structural)]
pub enum SocketAddress {
    /// An address of four bytes, the first as the highest.
    V4 { ip: u32, port: u16 },
    /// An address of sixteen bytes, the first as the highest.
    V6 { ip6: u128, port: u16, flowinfo: u32, scope_id: u32 },
}

/// How the handshake below the session was made.
#[derive(Clone, Copy, Debug, PartialEq, Eq, Structural)]
pub enum TransportHandshakeMode {
    Stream,
    TlsRustls,
    QuicNative,
    WebSocketStandard,
}

/// How a connection was made.
#[derive(Clone, Copy, Debug, PartialEq, Eq, Structural)]
pub struct TransportRuntimeInfo {
    pub handshake_mode: TransportHandshakeMode,
}

/// What is known of the peer of a connection.
#[derive(Debug)]
pub struct PeerMeta {
    /// The name of the way in which the peer was reached.
    pub scheme: &'static str,
    /// The address that was asked for or listened on.
    pub uri: TransportUri,
    /// The end of the connection on this machine.
    pub local_addr: Option<SocketAddress>,
    /// The end of the connection at the peer.
    pub remote_addr: Option<SocketAddress>,
    /// How the connection was made.
    pub runtime_info: Option<TransportRuntimeInfo>,
}

/// What is known of a peer whose connection was made in the given mode.
pub fn standard_peer_meta(
    scheme: &'static str,
    uri: TransportUri,
    local_addr: Option<SocketAddress>,
    remote_addr: Option<SocketAddress>,
    mode: TransportHandshakeMode,
) -> (p: PeerMeta)
    ensures
        p.scheme@ == scheme@,
        p.uri == uri,
        p.local_addr == local_addr,
        p.remote_addr == remote_addr,
        p.runtime_info == Some(TransportRuntimeInfo { handshake_mode: mode }),
{
    PeerMeta {
        scheme,
        uri,
        local_addr,
        remote_addr,
        runtime_info: Some(TransportRuntimeInfo { handshake_mode: mode }),
    }
}

/// What each kind of connection and of way offers: bytes and how it was made in any case,
/// listening only to those that listen, messages to WebSocket, datagrams and further
/// streams to QUIC.
pub proof fn what_is_offered(
    s: TransportCapabilities,
    l: TransportCapabilities,
    q: TransportCapabilities,
    r: TransportCapabilities,
    w: TransportCapabilities,
)
    requires
        call_ensures(TransportCapabilities::stream_connection, (), s),
        call_ensures(TransportCapabilities::stream_listener, (), l),
        call_ensures(TransportCapabilities::quic_connection, (), q),
        call_ensures(TransportCapabilities::quic_listener, (), r),
        call_ensures(TransportCapabilities::websocket_listener, (), w),
    ensures
        s.byte_stream && l.byte_stream && q.byte_stream && r.byte_stream && w.byte_stream,
        s.runtime_metadata && l.runtime_metadata && q.runtime_metadata && r.runtime_metadata
            && w.runtime_metadata,
        !s.listener && l.listener && !q.listener && r.listener && w.listener,
        !s.messages && !l.messages && !q.messages && !r.messages && w.messages,
        !s.datagrams && !l.datagrams && q.datagrams && r.datagrams && !w.datagrams,
        !s.substreams && !l.substreams && q.substreams && r.substreams && !w.substreams,
{
}

} // verus!
