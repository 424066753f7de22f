//! The ways of reaching peers, by name.

use crate::text::same_text;
use crate::transport::error::{framed, Failure, TransportError};
use crate::transport::hint_registry::TransportHintRegistry;
use crate::transport::obfs4_tcp::Obfs4TcpTransport;
use crate::transport::quic::QuicTransport;
use crate::transport::socks::{SocksTlsTransport, SocksTransport};
use crate::transport::streams::{
    TlsTransport, UnixTransport, WebSocketSecureTransport, WebSocketTransport,
    WebtunnelWssTransport,
};
use crate::transport::tcp::TcpTransport;
use crate::transport::traits::{Transport, TransportCapabilities};
use crate::transport::uri::TransportUri;
use vstd::prelude::*;
use vstd::string::*;

verus! {

/// What is told how each attempt to connect ended.
pub trait TransportHintSink: Sized {
    /// Whether `next` is what is left of `self` after one outcome.
    spec fn recorded(self, scheme: Seq<char>, success: bool, next: Self) -> bool;

    /// Takes note of one outcome.
    fn record(&mut self, scheme: &str, success: bool)
        ensures
            old(self).recorded(scheme@, success, *final(self)),
    ;
}

/// One of the ways that every node knows.
#[derive(Debug)]
pub enum KnownTransport {
    Tcp(TcpTransport),
    Tls(TlsTransport),
    Quic(QuicTransport),
    Unix(UnixTransport),
    Socks(SocksTransport),
    SocksTls(SocksTlsTransport),
    Ws(WebSocketTransport),
    Wss(WebSocketSecureTransport),
    Obfs4Tcp(Obfs4TcpTransport),
    WebtunnelWss(WebtunnelWssTransport),
}

impl Transport for KnownTransport {
    open spec fn scheme_text(&self) -> Seq<char> {
        match self {
            KnownTransport::Tcp(t) => t.scheme_text(),
            KnownTransport::Tls(t) => t.scheme_text(),
            KnownTransport::Quic(t) => t.scheme_text(),
            KnownTransport::Unix(t) => t.scheme_text(),
            KnownTransport::Socks(t) => t.scheme_text(),
            KnownTransport::SocksTls(t) => t.scheme_text(),
            KnownTransport::Ws(t) => t.scheme_text(),
            KnownTransport::Wss(t) => t.scheme_text(),
            KnownTransport::Obfs4Tcp(t) => t.scheme_text(),
            KnownTransport::WebtunnelWss(t) => t.scheme_text(),
        }
    }

    open spec fn offers(&self) -> TransportCapabilities {
        match self {
            KnownTransport::Tcp(t) => t.offers(),
            KnownTransport::Tls(t) => t.offers(),
            KnownTransport::Quic(t) => t.offers(),
            KnownTransport::Unix(t) => t.offers(),
            KnownTransport::Socks(t) => t.offers(),
            KnownTransport::SocksTls(t) => t.offers(),
            KnownTransport::Ws(t) => t.offers(),
            KnownTransport::Wss(t) => t.offers(),
            KnownTransport::Obfs4Tcp(t) => t.offers(),
            KnownTransport::WebtunnelWss(t) => t.offers(),
        }
    }

    fn scheme(&self) -> (s: &'static str) {
        match self {
            KnownTransport::Tcp(t) => t.scheme(),
            KnownTransport::Tls(t) => t.scheme(),
            KnownTransport::Quic(t) => t.scheme(),
            KnownTransport::Unix(t) => t.scheme(),
            KnownTransport::Socks(t) => t.scheme(),
            KnownTransport::SocksTls(t) => t.scheme(),
            KnownTransport::Ws(t) => t.scheme(),
            KnownTransport::Wss(t) => t.scheme(),
            KnownTransport::Obfs4Tcp(t) => t.scheme(),
            KnownTransport::WebtunnelWss(t) => t.scheme(),
        }
    }

    fn capabilities(&self) -> (c: TransportCapabilities) {
        match self {
            KnownTransport::Tcp(t) => t.capabilities(),
            KnownTransport::Tls(t) => t.capabilities(),
            KnownTransport::Quic(t) => t.capabilities(),
            KnownTransport::Unix(t) => t.capabilities(),
            KnownTransport::Socks(t) => t.capabilities(),
            KnownTransport::SocksTls(t) => t.capabilities(),
            KnownTransport::Ws(t) => t.capabilities(),
            KnownTransport::Wss(t) => t.capabilities(),
            KnownTransport::Obfs4Tcp(t) => t.capabilities(),
            KnownTransport::WebtunnelWss(t) => t.capabilities(),
        }
    }
}

/// The ways of reaching peers, and what is told how attempts to connect ended.
/// Its view is the map from names to ways.
pub struct TransportRegistry<T: Transport, H> {
    transports: Vec<T>,
    hints: Option<H>,
}

spec fn names_unique<T: Transport>(v: Seq<T>) -> bool {
    forall|i: int, j: int|
        0 <= i < j < v.len() ==> #[trigger] v[i].scheme_text() != #[trigger] v[j].scheme_text()
}

spec fn has_name<T: Transport>(v: Seq<T>, name: Seq<char>) -> bool {
    exists|i: int| 0 <= i < v.len() && #[trigger] v[i].scheme_text() == name
}

spec fn index_of<T: Transport>(v: Seq<T>, name: Seq<char>) -> int {
    choose|i: int| 0 <= i < v.len() && #[trigger] v[i].scheme_text() == name
}

spec fn ways_of<T: Transport>(v: Seq<T>) -> Map<Seq<char>, T> {
    Map::new(|name: Seq<char>| has_name(v, name), |name: Seq<char>| v[index_of(v, name)])
}

proof fn lemma_way<T: Transport>(v: Seq<T>, i: int)
    requires
        names_unique(v),
        0 <= i < v.len(),
    ensures
        ways_of(v).contains_key(v[i].scheme_text()),
        ways_of(v)[v[i].scheme_text()] == v[i],
{
    assert(has_name(v, v[i].scheme_text()));
    let j = index_of(v, v[i].scheme_text());
    assert(v[j].scheme_text() == v[i].scheme_text());
}

impl<T: Transport, H> View for TransportRegistry<T, H> {
    type V = Map<Seq<char>, T>;

    closed spec fn view(&self) -> Map<Seq<char>, T> {
        ways_of(self.transports@)
    }
}

/// The names of the ways that every node knows.
pub open spec fn default_names() -> Set<Seq<char>> {
    set![
        "tcp"@,
        "tls"@,
        "quic"@,
        "unix"@,
        "socks"@,
        "sockstls"@,
        "ws"@,
        "wss"@,
        "obfs4-tcp"@,
        "webtunnel+wss"@,
    ]
}

/// What each of the ways that every node knows offers.
pub open spec fn default_offers(name: Seq<char>) -> TransportCapabilities {
    let stream = TransportCapabilities::stream();
    if name == "quic"@ {
        stream.multiplexed().listening()
    } else if name == "ws"@ || name == "wss"@ {
        stream.with_messages().listening()
    } else if name == "socks"@ || name == "sockstls"@ {
        stream
    } else {
        stream.listening()
    }
}

/// The names of the ways are pairwise different texts.
proof fn lemma_names()
    ensures
        "quic"@ != "ws"@,
        "quic"@ != "wss"@,
        "quic"@ != "socks"@,
        "quic"@ != "sockstls"@,
        "quic"@ != "tcp"@,
        "quic"@ != "tls"@,
        "quic"@ != "unix"@,
        "quic"@ != "obfs4-tcp"@,
        "quic"@ != "webtunnel+wss"@,
        "ws"@ != "socks"@,
        "ws"@ != "sockstls"@,
        "ws"@ != "tcp"@,
        "ws"@ != "tls"@,
        "ws"@ != "unix"@,
        "ws"@ != "obfs4-tcp"@,
        "ws"@ != "webtunnel+wss"@,
        "ws"@ != "wss"@,
        "wss"@ != "socks"@,
        "wss"@ != "sockstls"@,
        "wss"@ != "tcp"@,
        "wss"@ != "tls"@,
        "wss"@ != "unix"@,
        "wss"@ != "obfs4-tcp"@,
        "wss"@ != "webtunnel+wss"@,
        "socks"@ != "tcp"@,
        "socks"@ != "tls"@,
        "socks"@ != "unix"@,
        "socks"@ != "obfs4-tcp"@,
        "socks"@ != "webtunnel+wss"@,
        "socks"@ != "sockstls"@,
        "sockstls"@ != "tcp"@,
        "sockstls"@ != "tls"@,
        "sockstls"@ != "unix"@,
        "sockstls"@ != "obfs4-tcp"@,
        "sockstls"@ != "webtunnel+wss"@,
        "tcp"@ != "tls"@,
        "tcp"@ != "unix"@,
        "tcp"@ != "obfs4-tcp"@,
        "tcp"@ != "webtunnel+wss"@,
        "tls"@ != "unix"@,
        "tls"@ != "obfs4-tcp"@,
        "tls"@ != "webtunnel+wss"@,
        "unix"@ != "obfs4-tcp"@,
        "unix"@ != "webtunnel+wss"@,
        "obfs4-tcp"@ != "webtunnel+wss"@,
{
    reveal_strlit("tcp");
    reveal_strlit("tls");
    reveal_strlit("quic");
    reveal_strlit("unix");
    reveal_strlit("socks");
    reveal_strlit("sockstls");
    reveal_strlit("ws");
    reveal_strlit("wss");
    reveal_strlit("obfs4-tcp");
    reveal_strlit("webtunnel+wss");
    assert("ws"@.len() == 2);
    assert("tcp"@.len() == 3);
    assert("tls"@.len() == 3);
    assert("wss"@.len() == 3);
    assert("quic"@.len() == 4);
    assert("unix"@.len() == 4);
    assert("socks"@.len() == 5);
    assert("sockstls"@.len() == 8);
    assert("obfs4-tcp"@.len() == 9);
    assert("webtunnel+wss"@.len() == 13);
    assert("tcp"@[1] != "tls"@[1]);
    assert("wss"@[0] != "tcp"@[0]);
    assert("wss"@[0] != "tls"@[0]);
    assert("quic"@[0] != "unix"@[0]);
}

impl<T: Transport> TransportRegistry<T, TransportHintRegistry> {
    /// A registry without ways.
    pub fn new() -> (r: TransportRegistry<T, TransportHintRegistry>)
        ensures
            r@ == Map::<Seq<char>, T>::empty(),
            r.sink() is None,
    {
        let r = TransportRegistry { transports: Vec::new(), hints: None };
        assert(r@ =~= Map::<Seq<char>, T>::empty());
        r
    }
}

impl TransportRegistry<KnownTransport, TransportHintRegistry> {
    /// A registry with the ways that every node knows.
    pub fn with_defaults() -> (r: TransportRegistry<KnownTransport, TransportHintRegistry>)
        ensures
            r@.dom() == default_names(),
            forall|name: Seq<char>| #[trigger]
                r@.contains_key(name) ==> r@[name].scheme_text() == name && r@[name].offers()
                    == default_offers(name),
            r.sink() is None,
    {
        proof {
            lemma_names();
        }
        let mut r = Self::new();
        r.register(KnownTransport::Tcp(TcpTransport));
        r.register(KnownTransport::Tls(TlsTransport));
        r.register(KnownTransport::Quic(QuicTransport));
        r.register(KnownTransport::Unix(UnixTransport));
        r.register(KnownTransport::Socks(SocksTransport));
        r.register(KnownTransport::SocksTls(SocksTlsTransport));
        r.register(KnownTransport::Ws(WebSocketTransport));
        r.register(KnownTransport::Wss(WebSocketSecureTransport));
        r.register(KnownTransport::Obfs4Tcp(Obfs4TcpTransport));
        r.register(KnownTransport::WebtunnelWss(WebtunnelWssTransport));
        assert(r@.dom() =~= default_names());
        r
    }
}

impl<T: Transport> Default for TransportRegistry<T, TransportHintRegistry> {
    fn default() -> (r: TransportRegistry<T, TransportHintRegistry>)
        ensures
            r@ == Map::<Seq<char>, T>::empty(),
            r.sink() is None,
    {
        TransportRegistry::new()
    }
}

impl<T: Transport, H> TransportRegistry<T, H> {
    #[verifier::type_invariant]
    spec fn well_formed(self) -> bool {
        names_unique(self.transports@)
    }

    /// What is told how attempts to connect ended, if anything is.
    pub closed spec fn sink(self) -> Option<H> {
        self.hints
    }

    /// Adds a way under its name, in place of the one that had the name.
    pub fn register(&mut self, transport: T)
        ensures
            final(self)@ == old(self)@.insert(transport.scheme_text(), transport),
            final(self).sink() == old(self).sink(),
    {
        proof {
            use_type_invariant(&*self);
        }
        let name: &'static str = transport.scheme();
        let n: usize = self.transports.len();
        let ghost before = self.transports@;
        let mut i: usize = 0;
        while i < n && !same_text(self.transports[i].scheme(), name)
            invariant
                0 <= i <= n,
                n == self.transports@.len(),
                forall|j: int|
                    0 <= j < i ==> (#[trigger] self.transports@[j]).scheme_text() != name@,
            decreases n - i,
        {
            i = i + 1;
        }
        let ghost way = transport;
        let mut transports: Vec<T> = Vec::new();
        std::mem::swap(&mut transports, &mut self.transports);
        if i < n {
            transports.set(i, transport);
        } else {
            transports.push(transport);
        }
        proof {
            let after = transports@;
            assert forall|j: int| 0 <= j < before.len() implies (
            #[trigger] after[j]).scheme_text() == before[j].scheme_text() by {}
            assert(names_unique(after));
            lemma_way(after, i as int);
            assert forall|k: Seq<char>| has_name(after, k) == (has_name(before, k) || k
                == name@) by {
                if has_name(before, k) {
                    assert(after[index_of(before, k)].scheme_text() == k);
                }
                if k == name@ {
                    assert(after[i as int].scheme_text() == k);
                }
                if has_name(after, k) && k != name@ {
                    assert(before[index_of(after, k)].scheme_text() == k);
                }
            }
            assert forall|k: Seq<char>| has_name(after, k) && k != name@ implies ways_of(after)[k]
                == ways_of(before)[k] by {
                let j = index_of(after, k);
                lemma_way(after, j);
                lemma_way(before, j);
            }
            assert(ways_of(after) =~= ways_of(before).insert(name@, way));
        }
        self.transports = transports;
    }

    /// The way with the given name.
    pub fn get(&self, scheme: &str) -> (r: Result<&T, TransportError>)
        ensures
            match r {
                Ok(t) => self@.contains_key(scheme@) && *t == self@[scheme@],
                Err(e) => !self@.contains_key(scheme@) && e@ == Failure::Unsupported(
                    not_registered(scheme@),
                ),
            },
    {
        proof {
            use_type_invariant(self);
        }
        let n: usize = self.transports.len();
        let mut i: usize = 0;
        while i < n
            invariant
                0 <= i <= n,
                n == self.transports@.len(),
                names_unique(self.transports@),
                forall|j: int|
                    0 <= j < i ==> (#[trigger] self.transports@[j]).scheme_text() != scheme@,
            decreases n - i,
        {
            if same_text(self.transports[i].scheme(), scheme) {
                proof {
                    lemma_way(self.transports@, i as int);
                }
                return Ok(&self.transports[i]);
            }
            i = i + 1;
        }
        assert(!has_name(self.transports@, scheme@));
        Err(TransportError::Unsupported(framed("scheme `", scheme, "` is not registered")))
    }

    /// The same registry, with its attempts to connect told to `hints`.
    pub fn with_hint_registry<S: TransportHintSink>(self, hints: S) -> (r: TransportRegistry<T, S>)
        ensures
            r@ == self@,
            r.sink() == Some(hints),
    {
        proof {
            use_type_invariant(&self);
        }
        TransportRegistry { transports: self.transports, hints: Some(hints) }
    }

    /// What is told how attempts to connect ended, if anything is.
    pub fn hints(&self) -> (h: Option<&H>)
        ensures
            match self.sink() {
                Some(s) => h matches Some(t) && *t == s,
                None => h is None,
            },
    {
        match &self.hints {
            Some(s) => Some(s),
            None => None,
        }
    }

    /// The way that reaches an address.
    pub fn route(&self, uri: &TransportUri) -> (r: Result<&T, TransportError>)
        ensures
            match r {
                Ok(t) => self@.contains_key(uri.scheme_text()) && *t == self@[uri.scheme_text()],
                Err(e) => !self@.contains_key(uri.scheme_text()) && e@ == Failure::Unsupported(
                    not_registered(uri.scheme_text()),
                ),
            },
    {
        self.get(uri.scheme())
    }
}

impl<T: Transport, H: TransportHintSink> TransportRegistry<T, H> {
    /// Takes note of how an attempt to connect to an address ended. An address
    /// that no way reaches was not attempted.
    pub fn note_connect(&mut self, uri: &TransportUri, success: bool)
        ensures
            final(self)@ == old(self)@,
            match old(self).sink() {
                None => final(self).sink() is None,
                Some(s) => final(self).sink() matches Some(t) && if old(self)@.contains_key(
                    uri.scheme_text(),
                ) {
                    s.recorded(uri.scheme_text(), success, t)
                } else {
                    t == s
                },
            },
    {
        let known: bool = match self.route(uri) {
            Ok(_) => true,
            Err(_) => false,
        };
        if known {
            proof {
                use_type_invariant(&*self);
            }
            let mut hints: Option<H> = None;
            std::mem::swap(&mut hints, &mut self.hints);
            if let Some(mut s) = hints {
                s.record(uri.scheme(), success);
                self.hints = Some(s);
            }
        }
    }
}

/// The complaint about a name that no way has.
pub open spec fn not_registered(scheme: Seq<char>) -> Seq<char> {
    "scheme `"@ + scheme + "` is not registered"@
}

/// The warning about an operation that sends in the clear to another machine.
pub open spec fn plaintext_warning_text(op: Seq<char>, scheme: Seq<char>, host: Seq<char>) -> Seq<
    char,
> {
    "transport.plaintext_non_localhost: "@ + op + " scheme="@ + scheme + " host="@ + host
        + " \u{2014} traffic is readable by on-path DPI; switch to tls://, quic://, wss://, or sockstls:// for production"@
}

/// The warning that is due before an operation on an address: only when the
/// traffic is in the clear, and not when it stays on this machine.
pub fn plaintext_warning(uri: &TransportUri, op: &str) -> (w: Option<String>)
    ensures
        match uri.plain_host() {
            Some(host) => if TransportUri::is_local(host) {
                w is None
            } else {
                w matches Some(t) && t@ == plaintext_warning_text(op@, uri.scheme_text(), host)
            },
            None => w is None,
        },
{
    match uri.plaintext_host() {
        None => None,
        Some(host) => {
            if TransportUri::host_is_localhost(host) {
                return None;
            }
            let mut s: String = String::from_str("transport.plaintext_non_localhost: ");
            s.append(op);
            s.append(" scheme=");
            s.append(uri.scheme());
            s.append(" host=");
            s.append(host);
            s.append(
                " \u{2014} traffic is readable by on-path DPI; switch to tls://, quic://, wss://, or sockstls:// for production",
            );
            Some(s)
        },
    }
}

/// A way that was added is the one found under its name, and the ways under other
/// names stay.
pub proof fn added_way_is_found<T: Transport>(
    before: Map<Seq<char>, T>,
    added: T,
    name: Seq<char>,
)
    ensures
        before.insert(added.scheme_text(), added)[added.scheme_text()] == added,
        name != added.scheme_text() ==> before.insert(added.scheme_text(), added).contains_key(name)
            == before.contains_key(name),
        name != added.scheme_text() && before.contains_key(name) ==> before.insert(
            added.scheme_text(),
            added,
        )[name] == before[name],
{
}

/// Every kind of address has a way among those that every node knows.
pub proof fn every_address_has_a_way(uri: TransportUri)
    ensures
        default_names().contains(uri.scheme_text()),
{
}

/// A way that was added is found under its name, in place of an earlier one of that name;
/// all others stay, and a name that nobody has is refused.
pub proof fn an_added_way_is_found<T: Transport, H>(
    r: &mut TransportRegistry<T, H>,
    added: T,
    scheme: &str,
    got: Result<&T, TransportError>,
    other: Seq<char>,
)
    requires
        scheme@ == added.scheme_text(),
        other != added.scheme_text(),
        call_ensures(TransportRegistry::<T, H>::register, (r, added), ()),
        call_ensures(TransportRegistry::<T, H>::get, (&*final(r), scheme), got),
    ensures
        got is Ok && *got->Ok_0 == added,
        final(r)@.contains_key(other) == old(r)@.contains_key(other),
        old(r)@.contains_key(other) ==> final(r)@[other] == old(r)@[other],
        final(r).sink() == old(r).sink(),
{
}

/// An address is reached by the way that its scheme names, which is the one found under
/// that name; without one nothing reaches it.
pub proof fn addresses_are_reached_by_their_scheme<T: Transport, H>(
    r: &TransportRegistry<T, H>,
    uri: &TransportUri,
    scheme: &'static str,
    got: Result<&T, TransportError>,
    by_name: Result<&T, TransportError>,
)
    requires
        call_ensures(TransportUri::scheme, (uri,), scheme),
        call_ensures(TransportRegistry::<T, H>::route, (r, uri), got),
        call_ensures(TransportRegistry::<T, H>::get, (r, scheme), by_name),
    ensures
        got is Ok <==> by_name is Ok,
        got is Ok ==> *got->Ok_0 == *by_name->Ok_0 && r@.contains_key(scheme@) && *got->Ok_0
            == r@[scheme@],
        got is Err ==> got->Err_0 is Unsupported && !r@.contains_key(scheme@),
{
}

/// The outcome of an attempt is told under the scheme of its address, where there is
/// something to tell and a way that could have been tried.
pub proof fn outcomes_are_told<T: Transport>(
    r: &mut TransportRegistry<T, TransportHintRegistry>,
    uri: &TransportUri,
    scheme: &'static str,
    success: bool,
    s: &mut TransportHintRegistry,
)
    requires
        call_ensures(TransportUri::scheme, (uri,), scheme),
        old(r).sink() is Some,
        *old(s) == old(r).sink()->0,
        call_ensures(
            TransportRegistry::<T, TransportHintRegistry>::note_connect,
            (r, uri, success),
            (),
        ),
        call_ensures(TransportHintRegistry::record, (s, scheme, success), ()),
    ensures
        final(r)@ == old(r)@,
        final(r).sink() is Some,
        old(r)@.contains_key(scheme@) ==> final(r).sink()->0@ == final(s)@,
        !old(r)@.contains_key(scheme@) ==> final(r).sink()->0@ == old(s)@,
{
}

/// A warning is due exactly before traffic goes in the clear to another machine.
pub proof fn a_warning_is_due_before_plain_traffic(
    uri: &TransportUri,
    op: &str,
    w: Option<String>,
    host: Option<&str>,
    local: bool,
)
    requires
        call_ensures(plaintext_warning, (uri, op), w),
        call_ensures(TransportUri::plaintext_host, (uri,), host),
        host is Some ==> call_ensures(TransportUri::host_is_localhost, (host->0,), local),
    ensures
        w is Some <==> host is Some && !local,
        w is Some ==> *uri is Tcp || *uri is Ws || *uri is Socks,
{
}

/// Every node knows a way for each kind of address.
pub proof fn every_node_reaches_every_kind_of_address(
    r: TransportRegistry<KnownTransport, TransportHintRegistry>,
    uri: &TransportUri,
    got: Result<&KnownTransport, TransportError>,
)
    requires
        call_ensures(
            TransportRegistry::<KnownTransport, TransportHintRegistry>::with_defaults,
            (),
            r,
        ),
        call_ensures(
            TransportRegistry::<KnownTransport, TransportHintRegistry>::route,
            (&r, uri),
            got,
        ),
    ensures
        got is Ok,
        got->Ok_0.scheme_text() == uri.scheme_text(),
{
    every_address_has_a_way(*uri);
    assert(r@.dom().contains(uri.scheme_text()));
    assert(r@.contains_key(uri.scheme_text()));
}

} // verus!
