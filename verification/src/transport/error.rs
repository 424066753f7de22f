//! Why a transport operation failed.

use crate::time::Duration;
use vstd::prelude::*;
use vstd::string::*;

verus! {

/// What kind of failure the operating system reported.
#[derive(Clone, Copy, Debug, PartialEq, Eq, Structural)]
pub enum IoErrorKind {
    /// The address is taken.
    AddrInUse,
    /// Any other failure.
    Other,
}

/// A failure of input or output.
#[derive(Debug)]
pub struct IoError {
    pub kind: IoErrorKind,
    pub message: String,
}

/// The failure of any transport operation.
#[derive(Debug)]
pub enum TransportError {
    /// The address is malformed.
    InvalidUri(String),
    /// The host's name has no address.
    Dns(String),
    /// No connection came about in time.
    ConnectTimeout(Duration),
    /// The handshake was not over in time.
    HandshakeTimeout(Duration),
    /// Input or output failed.
    Io(IoError),
    /// The TLS layer failed.
    Tls(String),
    /// The QUIC layer failed.
    Quic(String),
    /// The WebSocket layer failed.
    WebSocket(String),
    /// The operation is not available.
    Unsupported(String),
}

/// The content of a [`TransportError`].
#[verifier::ext_equal]
pub ghost enum Failure {
    InvalidUri(Seq<char>),
    Dns(Seq<char>),
    ConnectTimeout(Duration),
    HandshakeTimeout(Duration),
    Io(IoErrorKind, Seq<char>),
    Tls(Seq<char>),
    Quic(Seq<char>),
    WebSocket(Seq<char>),
    Unsupported(Seq<char>),
}

impl View for TransportError {
    type V = Failure;

    open spec fn view(&self) -> Failure {
        match self {
            TransportError::InvalidUri(m) => Failure::InvalidUri(m@),
            TransportError::Dns(m) => Failure::Dns(m@),
            TransportError::ConnectTimeout(d) => Failure::ConnectTimeout(*d),
            TransportError::HandshakeTimeout(d) => Failure::HandshakeTimeout(*d),
            TransportError::Io(e) => Failure::Io(e.kind, e.message@),
            TransportError::Tls(m) => Failure::Tls(m@),
            TransportError::Quic(m) => Failure::Quic(m@),
            TransportError::WebSocket(m) => Failure::WebSocket(m@),
            TransportError::Unsupported(m) => Failure::Unsupported(m@),
        }
    }
}

impl Failure {
    /// The failure in words.
    pub open spec fn words(self) -> Seq<char> {
        match self {
            Failure::InvalidUri(m) => "invalid transport URI: "@ + m,
            Failure::Dns(m) => "dns resolution failed: "@ + m,
            Failure::ConnectTimeout(d) => "connection timed out after "@ + d.words(),
            Failure::HandshakeTimeout(d) => "handshake timed out after "@ + d.words(),
            Failure::Io(_, m) => "io error: "@ + m,
            Failure::Tls(m) => "tls error: "@ + m,
            Failure::Quic(m) => "quic error: "@ + m,
            Failure::WebSocket(m) => "websocket error: "@ + m,
            Failure::Unsupported(m) => "unsupported transport operation: "@ + m,
        }
    }
}

/// One text behind another.
pub fn joined(a: &str, b: &str) -> (s: String)
    ensures
        s@ == a@ + b@,
{
    let mut s: String = String::from_str(a);
    s.append(b);
    s
}

/// Three texts, one behind another.
pub fn framed(a: &str, b: &str, c: &str) -> (s: String)
    ensures
        s@ == a@ + b@ + c@,
{
    let mut s: String = joined(a, b);
    s.append(c);
    s
}

impl TransportError {
    /// The failure in words.
    pub fn message(&self) -> (s: String)
        ensures
            s@ == self@.words(),
    {
        match self {
            TransportError::InvalidUri(m) => joined("invalid transport URI: ", m.as_str()),
            TransportError::Dns(m) => joined("dns resolution failed: ", m.as_str()),
            TransportError::ConnectTimeout(d) => {
                let t: String = d.text();
                joined("connection timed out after ", t.as_str())
            },
            TransportError::HandshakeTimeout(d) => {
                let t: String = d.text();
                joined("handshake timed out after ", t.as_str())
            },
            TransportError::Io(e) => joined("io error: ", e.message.as_str()),
            TransportError::Tls(m) => joined("tls error: ", m.as_str()),
            TransportError::Quic(m) => joined("quic error: ", m.as_str()),
            TransportError::WebSocket(m) => joined("websocket error: ", m.as_str()),
            TransportError::Unsupported(m) => joined(
                "unsupported transport operation: ",
                m.as_str(),
            ),
        }
    }
}

/// The failure of a connection that did not come about within `duration`.
pub fn connect_timeout(duration: Duration) -> (e: TransportError)
    ensures
        e@ == Failure::ConnectTimeout(duration),
{
    TransportError::ConnectTimeout(duration)
}

/// The failure of a handshake that was not over within `duration`.
pub fn handshake_timeout(duration: Duration) -> (e: TransportError)
    ensures
        e@ == Failure::HandshakeTimeout(duration),
{
    TransportError::HandshakeTimeout(duration)
}

/// A failure of the QUIC layer.
pub fn quic_error(message: &str) -> (e: TransportError)
    ensures
        e@ == Failure::Quic(message@),
{
    TransportError::Quic(String::from_str(message))
}

/// A failure of the WebSocket layer.
pub fn websocket_error(message: &str) -> (e: TransportError)
    ensures
        e@ == Failure::WebSocket(message@),
{
    TransportError::WebSocket(String::from_str(message))
}

/// A failure of input or output of no particular kind.
pub fn io_other_error(message: &str) -> (e: TransportError)
    ensures
        e@ == Failure::Io(IoErrorKind::Other, message@),
{
    TransportError::Io(IoError { kind: IoErrorKind::Other, message: String::from_str(message) })
}

/// A failure of the TLS layer.
pub fn tls_error(message: &str) -> (e: TransportError)
    ensures
        e@ == Failure::Tls(message@),
{
    TransportError::Tls(String::from_str(message))
}

/// An operation that is not available.
pub fn unsupported(message: &str) -> (e: TransportError)
    ensures
        e@ == Failure::Unsupported(message@),
{
    TransportError::Unsupported(String::from_str(message))
}

/// The words of a failure say which layer failed and hold what was wrong.
pub proof fn failures_tell_what_was_wrong(e: &TransportError, s: String)
    requires
        call_ensures(TransportError::message, (e,), s),
    ensures
        *e is InvalidUri ==> s@ == "invalid transport URI: "@ + e->InvalidUri_0@,
        *e is Dns ==> s@ == "dns resolution failed: "@ + e->Dns_0@,
        *e is Io ==> s@ == "io error: "@ + e->Io_0.message@,
        *e is Tls ==> s@ == "tls error: "@ + e->Tls_0@,
        *e is Quic ==> s@ == "quic error: "@ + e->Quic_0@,
        *e is WebSocket ==> s@ == "websocket error: "@ + e->WebSocket_0@,
        *e is Unsupported ==> s@ == "unsupported transport operation: "@ + e->Unsupported_0@,
        *e is ConnectTimeout ==> s@ == "connection timed out after "@ + e->ConnectTimeout_0.words(),
        *e is HandshakeTimeout ==> s@ == "handshake timed out after "@
            + e->HandshakeTimeout_0.words(),
{
}

/// Each kind of failure is made as what it is.
pub proof fn failures_are_of_their_kind(
    m: &str,
    d: Duration,
    a: TransportError,
    b: TransportError,
    q: TransportError,
    w: TransportError,
    i: TransportError,
    t: TransportError,
    u: TransportError,
)
    requires
        call_ensures(connect_timeout, (d,), a),
        call_ensures(handshake_timeout, (d,), b),
        call_ensures(quic_error, (m,), q),
        call_ensures(websocket_error, (m,), w),
        call_ensures(io_other_error, (m,), i),
        call_ensures(tls_error, (m,), t),
        call_ensures(unsupported, (m,), u),
    ensures
        a == TransportError::ConnectTimeout(d) && b == TransportError::HandshakeTimeout(d),
        q is Quic && q->Quic_0@ == m@,
        w is WebSocket && w->WebSocket_0@ == m@,
        i is Io && i->Io_0.kind == IoErrorKind::Other && i->Io_0.message@ == m@,
        t is Tls && t->Tls_0@ == m@,
        u is Unsupported && u->Unsupported_0@ == m@,
{
}

} // verus!
