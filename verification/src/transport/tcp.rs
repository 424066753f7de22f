//! Plain TCP.

use crate::text::{chars_of, number_in, parse_number, trim, trimmed};
use crate::time::Duration;
use crate::transport::dial::{Dial, DialState};
use crate::transport::error::{framed, Failure, TransportError};
use crate::transport::traits::{
    standard_peer_meta, PeerMeta, SocketAddress, Transport, TransportCapabilities,
    TransportHandshakeMode, TransportRuntimeInfo,
};
use crate::transport::uri::TransportUri;
use vstd::prelude::*;
use vstd::string::*;

verus! {

/// Upper bound on the segments of every TCP socket. Some networks drop full
/// segments silently, and with them the largest messages of the handshake.
pub const DOWNLINK_MSS_CLAMP: u32 = 1200;

/// Upper bound on the bytes that a TCP socket buffers for sending. What is in the
/// buffer can no longer be overtaken by what is more urgent.
pub const UPLINK_SNDBUF_CLAMP: usize = 262_144;

/// Least send buffer that can be asked for; below it the writer would stall.
pub const MIN_SNDBUF: usize = 65_536;

/// Connections that wait to be accepted.
pub const LISTEN_BACKLOG: i32 = 1024;

/// Plain TCP, without encryption or framing.
#[derive(Debug, Default)]
pub struct TcpTransport;

impl Transport for TcpTransport {
    open spec fn scheme_text(&self) -> Seq<char> {
        "tcp"@
    }

    open spec fn offers(&self) -> TransportCapabilities {
        TransportCapabilities::stream().listening()
    }

    fn scheme(&self) -> (s: &'static str) {
        "tcp"
    }

    fn capabilities(&self) -> (c: TransportCapabilities) {
        TransportCapabilities::stream_listener()
    }
}

/// The send buffer that goes with what was asked for, if anything was: that number
/// where it is one and is large enough, else the usual bound.
pub open spec fn sndbuf_for(asked: Option<Seq<char>>) -> nat {
    match asked {
        Some(t) => match number_in(trimmed(t), usize::MAX as nat) {
            Ok(n) => if n >= MIN_SNDBUF {
                n
            } else {
                UPLINK_SNDBUF_CLAMP as nat
            },
            Err(_) => UPLINK_SNDBUF_CLAMP as nat,
        },
        None => UPLINK_SNDBUF_CLAMP as nat,
    }
}

/// The send buffer that goes with what was asked for, if anything was.
pub fn uplink_sndbuf(asked: Option<&str>) -> (n: usize)
    ensures
        n == sndbuf_for(
            match asked {
                Some(t) => Some(t@),
                None => None,
            },
        ),
        n >= MIN_SNDBUF,
{
    match asked {
        Some(t) => {
            let chars: Vec<char> = chars_of(t);
            let cut: Vec<char> = trim(chars.as_slice());
            match parse_number(cut.as_slice(), usize::MAX as u64) {
                Ok(n) => {
                    if n >= MIN_SNDBUF as u64 {
                        n as usize
                    } else {
                        UPLINK_SNDBUF_CLAMP
                    }
                },
                Err(_) => UPLINK_SNDBUF_CLAMP,
            }
        },
        None => UPLINK_SNDBUF_CLAMP,
    }
}

/// What is known of the peer of a byte stream.
pub fn peer_meta(
    scheme: &'static str,
    uri: TransportUri,
    local_addr: Option<SocketAddress>,
    remote_addr: Option<SocketAddress>,
) -> (p: PeerMeta)
    ensures
        p.scheme@ == scheme@,
        p.uri == uri,
        p.local_addr == local_addr,
        p.remote_addr == remote_addr,
        p.runtime_info == Some(
            TransportRuntimeInfo { handshake_mode: TransportHandshakeMode::Stream },
        ),
{
    standard_peer_meta(scheme, uri, local_addr, remote_addr, TransportHandshakeMode::Stream)
}

/// What a TCP connection needs of an address.
pub fn tcp_connect_parts(uri: &TransportUri) -> (r: Result<(&str, u16), TransportError>)
    ensures
        match *uri {
            TransportUri::Tcp { host, port } => r matches Ok((h, p)) && h@ == host@ && p == port,
            _ => r matches Err(e) && e@ == Failure::Unsupported(
                "tcp transport cannot handle `"@ + uri.scheme_text() + "`"@,
            ),
        },
{
    match uri {
        TransportUri::Tcp { host, port } => Ok((host.as_str(), *port)),
        _ => Err(
            TransportError::Unsupported(framed("tcp transport cannot handle `", uri.scheme(), "`")),
        ),
    }
}

/// What a TCP listener needs of an address.
pub fn tcp_bind_parts(uri: &TransportUri) -> (r: Result<(&str, u16), TransportError>)
    ensures
        match *uri {
            TransportUri::Tcp { host, port } => r matches Ok((h, p)) && h@ == host@ && p == port,
            _ => r matches Err(e) && e@ == Failure::Unsupported(
                "tcp transport cannot bind `"@ + uri.scheme_text() + "`"@,
            ),
        },
{
    match uri {
        TransportUri::Tcp { host, port } => Ok((host.as_str(), *port)),
        _ => Err(
            TransportError::Unsupported(framed("tcp transport cannot bind `", uri.scheme(), "`")),
        ),
    }
}

/// The dial of a TCP connection: the addresses of the host in order, each within
/// `timeout`. The first that takes too long ends the dial.
pub fn tcp_dial(addrs: Vec<SocketAddress>, timeout: Duration, host: &str, port: u16) -> (d: Dial)
    ensures
        d@ == (DialState {
            addrs: addrs@,
            tried: 0,
            last: None,
            timeout,
            abort_on_timeout: true,
            host: host@,
            port,
        }),
{
    Dial::new(addrs, timeout, true, host, port)
}

/// How a TCP listener comes about.
pub enum BindPlan {
    /// The host has no addresses; the system is asked with its name.
    ByName,
    /// The addresses are tried in order.
    ByAddress(Dial),
}

/// How a TCP listener comes about on a host with the given addresses.
pub fn tcp_bind_plan(addrs: Vec<SocketAddress>, host: &str, port: u16) -> (p: BindPlan)
    ensures
        match p {
            BindPlan::ByName => addrs@.len() == 0,
            BindPlan::ByAddress(d) => addrs@.len() > 0 && d@ == (DialState {
                addrs: addrs@,
                tried: 0,
                last: None,
                timeout: d@.timeout,
                abort_on_timeout: false,
                host: host@,
                port,
            }),
        },
{
    if addrs.len() == 0 {
        BindPlan::ByName
    } else {
        BindPlan::ByAddress(Dial::new(addrs, Duration::from_secs(0), false, host, port))
    }
}

/// The send buffer is never below what one write needs, whatever was asked for.
pub proof fn send_buffer_is_never_tiny(asked: Option<Seq<char>>)
    ensures
        sndbuf_for(asked) >= MIN_SNDBUF,
{
}

/// The send buffer is what was asked for where that is a number of at least 65536, blanks
/// around it aside, and 262144 otherwise.
pub proof fn the_send_buffer_is_bounded(asked: Option<&str>, n: usize)
    requires
        call_ensures(uplink_sndbuf, (asked,), n),
    ensures
        asked is None ==> n == 262_144,
        asked is Some && number_in(trimmed(asked->0@), usize::MAX as nat) is Err ==> n == 262_144,
        asked is Some && number_in(trimmed(asked->0@), usize::MAX as nat) is Ok ==> {
            let k = number_in(trimmed(asked->0@), usize::MAX as nat)->Ok_0;
            &&& k >= 65_536 ==> n == k
            &&& k < 65_536 ==> n == 262_144
        },
{
}

/// Only a TCP address can be connected to or listened on, at its host and port.
pub proof fn tcp_serves_tcp_addresses(
    u: &TransportUri,
    c: Result<(&str, u16), TransportError>,
    b: Result<(&str, u16), TransportError>,
)
    requires
        call_ensures(tcp_connect_parts, (u,), c),
        call_ensures(tcp_bind_parts, (u,), b),
    ensures
        c is Ok <==> *u is Tcp,
        b is Ok <==> *u is Tcp,
        *u is Tcp ==> (c->Ok_0).0@ == u->Tcp_host@ && (c->Ok_0).1 == u->Tcp_port,
        *u is Tcp ==> (b->Ok_0).0@ == u->Tcp_host@ && (b->Ok_0).1 == u->Tcp_port,
        c is Err ==> c->Err_0 is Unsupported,
        b is Err ==> b->Err_0 is Unsupported,
{
}

/// A connection is dialled through all addresses of the host and given up at the first
/// that takes too long; a listener tries all of them, and asks by name when there is none.
pub proof fn dials_and_listeners_use_all_addresses(
    addrs: Vec<SocketAddress>,
    timeout: Duration,
    host: &str,
    port: u16,
    d: Dial,
    p: BindPlan,
)
    requires
        call_ensures(tcp_dial, (addrs, timeout, host, port), d),
        call_ensures(tcp_bind_plan, (addrs, host, port), p),
    ensures
        d@.addrs == addrs@ && d@.tried == 0 && d@.timeout == timeout && d@.abort_on_timeout,
        p is ByName <==> addrs@.len() == 0,
        p is ByAddress ==> p->ByAddress_0@.addrs == addrs@ && p->ByAddress_0@.tried == 0
            && !p->ByAddress_0@.abort_on_timeout,
{
}

/// What is known of the peer of a stream is what was told of it.
pub proof fn a_stream_peer_is_known_as_told(
    scheme: &'static str,
    uri: TransportUri,
    local: Option<SocketAddress>,
    remote: Option<SocketAddress>,
    p: PeerMeta,
)
    requires
        call_ensures(peer_meta, (scheme, uri, local, remote), p),
    ensures
        p.scheme@ == scheme@ && p.uri == uri,
        p.local_addr == local && p.remote_addr == remote,
        p.runtime_info is Some && p.runtime_info->0.handshake_mode
            == TransportHandshakeMode::Stream,
{
}

} // verus!
