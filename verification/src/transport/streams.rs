//! Ways of reaching peers whose rules lie wholly in the layers that carry them.

use crate::transport::traits::{Transport, TransportCapabilities};
use vstd::prelude::*;

verus! {

/// TLS on TCP.
#[derive(Debug, Default)]
pub struct TlsTransport;

impl Transport for TlsTransport {
    open spec fn scheme_text(&self) -> Seq<char> {
        "tls"@
    }

    open spec fn offers(&self) -> TransportCapabilities {
        TransportCapabilities::stream().listening()
    }

    fn scheme(&self) -> (s: &'static str) {
        "tls"
    }

    fn capabilities(&self) -> (c: TransportCapabilities) {
        TransportCapabilities::stream_listener()
    }
}

/// Sockets in the file system.
#[derive(Debug, Default)]
pub struct UnixTransport;

impl Transport for UnixTransport {
    open spec fn scheme_text(&self) -> Seq<char> {
        "unix"@
    }

    open spec fn offers(&self) -> TransportCapabilities {
        TransportCapabilities::stream().listening()
    }

    fn scheme(&self) -> (s: &'static str) {
        "unix"
    }

    fn capabilities(&self) -> (c: TransportCapabilities) {
        TransportCapabilities::stream_listener()
    }
}

/// WebSocket.
#[derive(Debug, Default)]
pub struct WebSocketTransport;

impl Transport for WebSocketTransport {
    open spec fn scheme_text(&self) -> Seq<char> {
        "ws"@
    }

    open spec fn offers(&self) -> TransportCapabilities {
        TransportCapabilities::stream().with_messages().listening()
    }

    fn scheme(&self) -> (s: &'static str) {
        "ws"
    }

    fn capabilities(&self) -> (c: TransportCapabilities) {
        TransportCapabilities::websocket_listener()
    }
}

/// WebSocket on TLS.
#[derive(Debug, Default)]
pub struct WebSocketSecureTransport;

impl Transport for WebSocketSecureTransport {
    open spec fn scheme_text(&self) -> Seq<char> {
        "wss"@
    }

    open spec fn offers(&self) -> TransportCapabilities {
        TransportCapabilities::stream().with_messages().listening()
    }

    fn scheme(&self) -> (s: &'static str) {
        "wss"
    }

    fn capabilities(&self) -> (c: TransportCapabilities) {
        TransportCapabilities::websocket_listener()
    }
}

/// A tunnel hidden in an ordinary web site.
#[derive(Debug, Default)]
pub struct WebtunnelWssTransport;

impl Transport for WebtunnelWssTransport {
    open spec fn scheme_text(&self) -> Seq<char> {
        "webtunnel+wss"@
    }

    open spec fn offers(&self) -> TransportCapabilities {
        TransportCapabilities::stream().listening()
    }

    fn scheme(&self) -> (s: &'static str) {
        "webtunnel+wss"
    }

    fn capabilities(&self) -> (c: TransportCapabilities) {
        TransportCapabilities::stream_listener()
    }
}

} // verus!
