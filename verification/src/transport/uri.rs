//! Addresses of nodes, by the way in which they are reached.

use crate::text::same_text;
use vstd::prelude::*;
use vstd::string::*;

verus! {

/// The address of a node.
#[derive(Clone, Debug)]
pub enum TransportUri {
    /// Plain TCP.
    Tcp { host: String, port: u16 },
    /// TLS on TCP.
    Tls { host: String, port: u16, sni: Option<String>, alpn: Vec<Vec<u8>> },
    /// QUIC.
    Quic { host: String, port: u16, sni: Option<String>, alpn: Vec<Vec<u8>> },
    /// A socket in the file system.
    Unix { path: String },
    /// TCP through a SOCKS proxy.
    Socks { proxy_host: String, proxy_port: u16, target_host: String, target_port: u16 },
    /// TLS through a SOCKS proxy.
    SocksTls {
        proxy_host: String,
        proxy_port: u16,
        target_host: String,
        target_port: u16,
        sni: Option<String>,
        alpn: Vec<Vec<u8>>,
    },
    /// WebSocket.
    Ws { host: String, port: u16, path: String },
    /// WebSocket on TLS.
    Wss { host: String, port: u16, path: String, sni: Option<String> },
    /// TCP behind an obfuscating handshake.
    Obfs4Tcp { host: String, port: u16 },
    /// A tunnel hidden in an ordinary web site.
    WebtunnelWss { host: String, port: u16 },
}

impl TransportUri {
    /// The name of the way in which the address is reached.
    pub open spec fn scheme_text(self) -> Seq<char> {
        match self {
            TransportUri::Tcp { .. } => "tcp"@,
            TransportUri::Tls { .. } => "tls"@,
            TransportUri::Quic { .. } => "quic"@,
            TransportUri::Unix { .. } => "unix"@,
            TransportUri::Socks { .. } => "socks"@,
            TransportUri::SocksTls { .. } => "sockstls"@,
            TransportUri::Ws { .. } => "ws"@,
            TransportUri::Wss { .. } => "wss"@,
            TransportUri::Obfs4Tcp { .. } => "obfs4-tcp"@,
            TransportUri::WebtunnelWss { .. } => "webtunnel+wss"@,
        }
    }

    /// The name of the way in which the address is reached.
    pub fn scheme(&self) -> (s: &'static str)
        ensures
            s@ == self.scheme_text(),
    {
        match self {
            TransportUri::Tcp { .. } => "tcp",
            TransportUri::Tls { .. } => "tls",
            TransportUri::Quic { .. } => "quic",
            TransportUri::Unix { .. } => "unix",
            TransportUri::Socks { .. } => "socks",
            TransportUri::SocksTls { .. } => "sockstls",
            TransportUri::Ws { .. } => "ws",
            TransportUri::Wss { .. } => "wss",
            TransportUri::Obfs4Tcp { .. } => "obfs4-tcp",
            TransportUri::WebtunnelWss { .. } => "webtunnel+wss",
        }
    }

    /// The host that traffic to the address goes to unencrypted, if it does.
    pub open spec fn plain_host(self) -> Option<Seq<char>> {
        match self {
            TransportUri::Tcp { host, .. } => Some(host@),
            TransportUri::Ws { host, .. } => Some(host@),
            TransportUri::Socks { target_host, .. } => Some(target_host@),
            _ => None,
        }
    }

    /// The host that traffic to the address goes to unencrypted, if it does.
    pub fn plaintext_host(&self) -> (h: Option<&str>)
        ensures
            match self.plain_host() {
                Some(t) => h matches Some(s) && s@ == t,
                None => h is None,
            },
    {
        match self {
            TransportUri::Tcp { host, .. } => Some(host.as_str()),
            TransportUri::Ws { host, .. } => Some(host.as_str()),
            TransportUri::Socks { target_host, .. } => Some(target_host.as_str()),
            _ => None,
        }
    }

    /// Whether a host is this machine.
    pub open spec fn is_local(host: Seq<char>) -> bool {
        host == "localhost"@ || host == "127.0.0.1"@ || host == "::1"@
    }

    /// Whether a host is this machine. The addresses that stand for every
    /// interface are not.
    pub fn host_is_localhost(host: &str) -> (b: bool)
        ensures
            b == Self::is_local(host@),
    {
        same_text(host, "localhost") || same_text(host, "127.0.0.1") || same_text(host, "::1")
    }
}

/// The ways of reaching an address have different names, each its own.
pub proof fn every_way_has_its_name(u: &TransportUri, v: &TransportUri, s: &'static str, t: &'static str)
    requires
        call_ensures(TransportUri::scheme, (u,), s),
        call_ensures(TransportUri::scheme, (v,), t),
    ensures
        *u is Tcp ==> s@ == "tcp"@,
        *u is Tls ==> s@ == "tls"@,
        *u is Quic ==> s@ == "quic"@,
        *u is Unix ==> s@ == "unix"@,
        *u is Socks ==> s@ == "socks"@,
        *u is SocksTls ==> s@ == "sockstls"@,
        *u is Ws ==> s@ == "ws"@,
        *u is Wss ==> s@ == "wss"@,
        *u is Obfs4Tcp ==> s@ == "obfs4-tcp"@,
        *u is WebtunnelWss ==> s@ == "webtunnel+wss"@,
{
}

/// Traffic is in the clear exactly on plain TCP, plain WebSocket and behind a plain proxy,
/// and there it goes to the host that the address names, behind a proxy to the target.
pub proof fn what_travels_in_the_clear(u: &TransportUri, h: Option<&str>)
    requires
        call_ensures(TransportUri::plaintext_host, (u,), h),
    ensures
        h is Some <==> *u is Tcp || *u is Ws || *u is Socks,
        *u is Tcp ==> h->0@ == u->Tcp_host@,
        *u is Ws ==> h->0@ == u->Ws_host@,
        *u is Socks ==> h->0@ == u->Socks_target_host@,
{
}

/// This machine goes by three names and no other.
pub proof fn this_machine_has_three_names(host: &str, b: bool)
    requires
        call_ensures(TransportUri::host_is_localhost, (host,), b),
    ensures
        b <==> host@ == "localhost"@ || host@ == "127.0.0.1"@ || host@ == "::1"@,
{
}

} // verus!
