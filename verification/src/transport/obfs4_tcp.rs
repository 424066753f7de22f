//! TCP behind an obfuscating handshake.

use crate::transport::error::{joined, unsupported, framed, Failure, TransportError};
use crate::transport::traits::{Transport, TransportCapabilities};
use crate::transport::uri::TransportUri;
use vstd::prelude::*;
use vstd::string::*;

verus! {

/// How long the handshake may take, in seconds.
pub const OBFS4_HANDSHAKE_TIMEOUT: u64 = 10;

/// TCP behind an obfuscating handshake.
#[derive(Debug, Default)]
pub struct Obfs4TcpTransport;

impl Transport for Obfs4TcpTransport {
    open spec fn scheme_text(&self) -> Seq<char> {
        "obfs4-tcp"@
    }

    open spec fn offers(&self) -> TransportCapabilities {
        TransportCapabilities::stream().listening()
    }

    fn scheme(&self) -> (s: &'static str) {
        "obfs4-tcp"
    }

    fn capabilities(&self) -> (c: TransportCapabilities) {
        TransportCapabilities::stream_listener()
    }
}

/// What a connection or a listener needs of an address.
pub fn obfs4_parts(uri: &TransportUri) -> (r: Result<(&str, u16), TransportError>)
    ensures
        match *uri {
            TransportUri::Obfs4Tcp { host, port } => r matches Ok((h, p)) && h@ == host@ && p
                == port,
            _ => r matches Err(e) && e@ == Failure::Unsupported(
                "obfs4-tcp transport cannot handle `"@ + uri.scheme_text() + "`"@,
            ),
        },
{
    match uri {
        TransportUri::Obfs4Tcp { host, port } => Ok((host.as_str(), *port)),
        _ => Err(
            TransportError::Unsupported(
                framed("obfs4-tcp transport cannot handle `", uri.scheme(), "`"),
            ),
        ),
    }
}

/// The secret of the handshake, without which there is none.
pub fn required_psk(psk: &Option<[u8; 32]>) -> (r: Result<[u8; 32], TransportError>)
    ensures
        match *psk {
            Some(k) => r matches Ok(s) && s@ == k@,
            None => r matches Err(e) && e@ == Failure::Unsupported(
                "obfs4-tcp transport requires `obfs4_psk` set in TransportContext"@,
            ),
        },
{
    match psk {
        Some(k) => Ok(*k),
        None => Err(
            unsupported("obfs4-tcp transport requires `obfs4_psk` set in TransportContext"),
        ),
    }
}

/// Which side of the handshake failed.
#[derive(Clone, Copy, Debug, PartialEq, Eq, Structural)]
pub enum HandshakeSide {
    Client,
    Server,
}

/// How a handshake ended.
pub enum HandshakeEnd {
    /// It succeeded.
    Done,
    /// It took too long.
    TimedOut,
    /// It failed for the given reason.
    Failed(String),
}

/// What a handshake that ended so comes to.
pub open spec fn handshake_failure(side: HandshakeSide, end: HandshakeEnd) -> Option<Failure> {
    match (side, end) {
        (_, HandshakeEnd::Done) => None,
        (HandshakeSide::Client, HandshakeEnd::TimedOut) => Some(
            Failure::Tls("obfs4 client handshake timed out"@),
        ),
        (HandshakeSide::Server, HandshakeEnd::TimedOut) => Some(
            Failure::Tls("obfs4 server handshake timed out"@),
        ),
        (HandshakeSide::Client, HandshakeEnd::Failed(m)) => Some(
            Failure::Tls("obfs4 client handshake: "@ + m@),
        ),
        (HandshakeSide::Server, HandshakeEnd::Failed(m)) => Some(
            Failure::Tls("obfs4 server handshake: "@ + m@),
        ),
    }
}

/// What a handshake that ended so comes to. Only one that succeeded leaves a
/// connection.
pub fn handshake_result(side: HandshakeSide, end: HandshakeEnd) -> (r: Result<(), TransportError>)
    ensures
        match handshake_failure(side, end) {
            None => r is Ok,
            Some(f) => r matches Err(e) && e@ == f,
        },
{
    match (side, end) {
        (_, HandshakeEnd::Done) => Ok(()),
        (HandshakeSide::Client, HandshakeEnd::TimedOut) => Err(
            TransportError::Tls(String::from_str("obfs4 client handshake timed out")),
        ),
        (HandshakeSide::Server, HandshakeEnd::TimedOut) => Err(
            TransportError::Tls(String::from_str("obfs4 server handshake timed out")),
        ),
        (HandshakeSide::Client, HandshakeEnd::Failed(m)) => Err(
            TransportError::Tls(joined("obfs4 client handshake: ", m.as_str())),
        ),
        (HandshakeSide::Server, HandshakeEnd::Failed(m)) => Err(
            TransportError::Tls(joined("obfs4 server handshake: ", m.as_str())),
        ),
    }
}

/// Only an address of this kind is served, at its host and port, and only with a secret.
pub proof fn the_handshake_needs_its_address_and_secret(
    u: &TransportUri,
    r: Result<(&str, u16), TransportError>,
    psk: &Option<[u8; 32]>,
    k: Result<[u8; 32], TransportError>,
)
    requires
        call_ensures(obfs4_parts, (u,), r),
        call_ensures(required_psk, (psk,), k),
    ensures
        r is Ok <==> *u is Obfs4Tcp,
        *u is Obfs4Tcp ==> (r->Ok_0).0@ == u->Obfs4Tcp_host@ && (r->Ok_0).1 == u->Obfs4Tcp_port,
        r is Err ==> r->Err_0 is Unsupported,
        k is Ok <==> *psk is Some,
        k is Ok ==> k->Ok_0@ == psk->0@,
        k is Err ==> k->Err_0 is Unsupported,
{
}

/// Only a handshake that succeeded leaves a connection, on either side, and a failure is
/// one of the layer with its reason.
pub proof fn only_a_finished_handshake_connects(
    side: HandshakeSide,
    end: HandshakeEnd,
    r: Result<(), TransportError>,
)
    requires
        call_ensures(handshake_result, (side, end), r),
    ensures
        r is Ok <==> end is Done,
        r is Err ==> r->Err_0 is Tls,
        end is Failed && side == HandshakeSide::Client ==> r->Err_0->Tls_0@
            == "obfs4 client handshake: "@ + end->Failed_0@,
        end is Failed && side == HandshakeSide::Server ==> r->Err_0->Tls_0@
            == "obfs4 server handshake: "@ + end->Failed_0@,
{
}

} // verus!
