//! What every transport operation is given: TLS material, and settings.

use crate::bytes::{byte_strings, copy_byte_strings, copy_bytes};
use crate::time::{Duration, NANOS_PER_SEC};
use crate::transport::error::{Failure, TransportError};
use crate::transport::fingerprint::{Rule, TlsFingerprintPolicy};
use crate::transport::tls_config::{
    add_anchor, add_web_anchors, anchor_in, anchors, anonymous_client, certified_client,
    certified_server, check_server_name, client_identity_in, pairing_error, self_signed,
    server_identity_in, server_name_fault, trusted_anchors, with_web_anchors, Anchor, Key,
    PrivateKey,
};
use crate::transport::traits::SocketAddress;
use crate::transport::uri::TransportUri;
use vstd::prelude::*;
use vstd::string::*;

verus! {

/// Asks the operating system for the addresses of a host.
#[derive(Clone, Copy, Debug, Default)]
pub struct SystemDnsResolver;

/// Settings of everything that runs on TCP.
#[derive(Clone, Copy, Debug)]
pub struct TcpTransportSettings {
    /// How long a connection may take to come about.
    pub connect_timeout: Duration,
    /// Whether small writes are sent at once.
    pub nodelay: bool,
    /// How long a connection is idle before the system probes it, if it does.
    pub keepalive_idle: Option<Duration>,
}

impl Default for TcpTransportSettings {
    fn default() -> (s: TcpTransportSettings)
        ensures
            s.connect_timeout@ == 10 * NANOS_PER_SEC,
            s.nodelay,
            s.keepalive_idle matches Some(d) && d@ == 60 * NANOS_PER_SEC,
    {
        TcpTransportSettings {
            connect_timeout: Duration::from_secs(10),
            nodelay: true,
            keepalive_idle: Some(Duration::from_secs(60)),
        }
    }
}

/// Settings of QUIC.
#[derive(Clone, Copy, Debug)]
pub struct QuicTransportSettings {
    /// How long a connection may take to come about.
    pub connect_timeout: Duration,
    /// How long a handshake may take.
    pub handshake_timeout: Duration,
    /// The end on this machine.
    pub bind_addr: SocketAddress,
}

impl Default for QuicTransportSettings {
    fn default() -> (s: QuicTransportSettings)
        ensures
            s.connect_timeout@ == 10 * NANOS_PER_SEC,
            s.handshake_timeout@ == 10 * NANOS_PER_SEC,
            s.bind_addr == (SocketAddress::V4 { ip: 0, port: 0 }),
    {
        QuicTransportSettings {
            connect_timeout: Duration::from_secs(10),
            handshake_timeout: Duration::from_secs(10),
            bind_addr: SocketAddress::V4 { ip: 0, port: 0 },
        }
    }
}

/// Kept for spans of tracing.
#[derive(Clone, Copy, Debug, Default)]
pub struct TracingHooks;

/// Kept for counters.
#[derive(Clone, Copy, Debug, Default)]
pub struct MetricsHooks;

/// How a WebSocket client behaves.
#[derive(Clone, Copy, Debug, Default, PartialEq, Eq, Structural)]
pub enum WebSocketClientMode {
    /// The upgrade of HTTP/1.1.
    #[default]
    Standard,
}

/// Which TLS library makes the first message of a handshake.
#[derive(Clone, Copy, Debug, Default, PartialEq, Eq, Structural)]
pub enum TlsClientFingerprint {
    /// The one written in Rust.
    #[default]
    Rustls,
}

/// Which form of the obfuscating handshake is spoken.
#[derive(Clone, Copy, Debug, PartialEq, Eq, Structural)]
pub enum WireFormatVariant {
    V1,
    V2,
}

/// A chain of certificates and its key.
pub struct Identity {
    pub chain: Vec<Vec<u8>>,
    pub key: PrivateKey,
}

impl Identity {
    /// The chain and the key.
    pub open spec fn content(self) -> (Seq<Seq<u8>>, Key) {
        (byte_strings(self.chain@), self.key@)
    }

    /// A copy.
    pub fn duplicate(&self) -> (i: Identity)
        ensures
            i.content() == self.content(),
    {
        Identity { chain: copy_byte_strings(&self.chain), key: self.key.clone_key() }
    }
}

/// Certificates and keys, and the TLS configurations made of them.
pub struct TlsContext {
    /// Certificates that are trusted.
    pub trusted_certificates: Vec<Vec<u8>>,
    /// What is presented to those who connect.
    pub server: Identity,
    /// What is presented to those who are connected to, if anything is.
    pub client: Option<Identity>,
    /// For connections to peers.
    pub client_config: std::sync::Arc<rustls::ClientConfig>,
    /// For connections from peers.
    pub server_config: std::sync::Arc<rustls::ServerConfig>,
    /// This node's certificate.
    pub cert_der: Vec<u8>,
    /// Which library makes the first message.
    pub client_fingerprint: TlsClientFingerprint,
    /// Whether the authorities of the public web are trusted as well.
    pub use_system_roots: bool,
}

/// What the configurations of a [`TlsContext`] are made of.
#[verifier::ext_equal]
pub ghost struct TlsMaterial {
    /// Certificates that are trusted.
    pub trusted: Seq<Seq<u8>>,
    /// What is presented to those who connect.
    pub server: (Seq<Seq<u8>>, Key),
    /// What is presented to those who are connected to, if anything is.
    pub client: Option<(Seq<Seq<u8>>, Key)>,
    /// Which library makes the first message.
    pub fingerprint: TlsClientFingerprint,
    /// Whether the authorities of the public web are trusted as well.
    pub system_roots: bool,
}

/// The anchors of trusted certificates, or why one of them has none.
pub open spec fn anchors_in(trusted: Seq<Seq<u8>>) -> Result<Seq<Anchor>, Seq<char>>
    decreases trusted.len(),
{
    if trusted.len() == 0 {
        Ok(Seq::empty())
    } else {
        match anchors_in(trusted.drop_last()) {
            Err(m) => Err(m),
            Ok(before) => match anchor_in(trusted.last()) {
                Err(m) => Err(m),
                Ok(a) => Ok(before.push(a)),
            },
        }
    }
}

impl TlsMaterial {
    /// Why no configurations can be made; nothing when they can.
    pub open spec fn fault(self) -> Option<Seq<char>> {
        if self.server.0.len() == 0 {
            Some("certificate chain is empty"@)
        } else {
            match anchors_in(self.trusted) {
                Err(m) => Some(m),
                Ok(_) => {
                    let unfit = match self.client {
                        Some((chain, key)) => pairing_error(chain, key),
                        None => None,
                    };
                    match unfit {
                        Some(m) => Some(m),
                        None => pairing_error(self.server.0, self.server.1),
                    }
                },
            }
        }
    }

    /// The anchors that are trusted in the end.
    pub open spec fn all_anchors(self) -> Seq<Anchor> {
        let own = anchors_in(self.trusted)->Ok_0;
        if self.system_roots {
            with_web_anchors(own)
        } else {
            own
        }
    }
}

/// The names that a certificate for trials is made for: those of this host.
pub fn debug_names() -> (v: Vec<String>)
    ensures
        v@.len() == 2,
        v@[0]@ == "localhost"@,
        v@[1]@ == "127.0.0.1"@,
{
    let mut v: Vec<String> = Vec::new();
    v.push(String::from_str("localhost"));
    v.push(String::from_str("127.0.0.1"));
    v
}

impl View for TlsContext {
    type V = TlsMaterial;

    open spec fn view(&self) -> TlsMaterial {
        TlsMaterial {
            trusted: byte_strings(self.trusted_certificates@),
            server: self.server.content(),
            client: match self.client {
                Some(i) => Some(i.content()),
                None => None,
            },
            fingerprint: self.client_fingerprint,
            system_roots: self.use_system_roots,
        }
    }
}

/// Puts the anchors of trusted certificates into a store, in order, up to the first
/// that has none.
fn fill_store(trusted: &Vec<Vec<u8>>) -> (r: Result<rustls::RootCertStore, String>)
    ensures
        match anchors_in(byte_strings(trusted@)) {
            Ok(all) => r matches Ok(s) && anchors(s) == all,
            Err(m) => r matches Err(e) && e@ == m,
        },
{
    let ghost all = byte_strings(trusted@);
    let mut store: rustls::RootCertStore = rustls::RootCertStore::empty();
    let mut i: usize = 0;
    assert(all.take(0) =~= Seq::<Seq<u8>>::empty());
    while i < trusted.len()
        invariant
            i <= trusted@.len(),
            all == byte_strings(trusted@),
            anchors_in(all.take(i as int)) == Ok::<Seq<Anchor>, Seq<char>>(anchors(store)),
        decreases trusted@.len() - i,
    {
        let der: Vec<u8> = copy_bytes(trusted[i].as_slice());
        proof {
            assert(all.take(i + 1).drop_last() =~= all.take(i as int));
            assert(all.take(i + 1).last() == der@);
        }
        match add_anchor(&mut store, der) {
            Ok(_) => {},
            Err(e) => {
                proof {
                    lemma_anchor_fault(all, i + 1);
                }
                return Err(e);
            },
        }
        i = i + 1;
    }
    assert(all.take(i as int) =~= all);
    Ok(store)
}

/// A certificate without an anchor spoils all that come behind it as well.
proof fn lemma_anchor_fault(trusted: Seq<Seq<u8>>, k: int)
    requires
        0 <= k <= trusted.len(),
        anchors_in(trusted.take(k)) is Err,
    ensures
        anchors_in(trusted) == anchors_in(trusted.take(k)),
    decreases trusted.len(),
{
    if k == trusted.len() {
        assert(trusted.take(k) =~= trusted);
    } else {
        assert(trusted.drop_last().take(k) =~= trusted.take(k));
        lemma_anchor_fault(trusted.drop_last(), k);
    }
}

impl TlsContext {
    /// Whether the configurations are those that go with the material.
    pub open spec fn consistent(self) -> bool {
        &&& self@.fault() is None
        &&& trusted_anchors(*self.client_config) == self@.all_anchors()
        &&& client_identity_in(*self.client_config) == self@.client
        &&& server_identity_in(*self.server_config) == self@.server
        &&& self.cert_der@ == self@.server.0[0]
    }

    /// Whether `r` is what making configurations of `m` leads to.
    pub open spec fn made_of(r: Result<TlsContext, TransportError>, m: TlsMaterial) -> bool {
        match m.fault() {
            None => r matches Ok(t) && t@ == m && t.consistent(),
            Some(text) => r matches Err(e) && e@ == Failure::Tls(text),
        }
    }

    /// Makes the configurations of the given certificates and keys.
    pub fn from_materials_with_roots(
        trusted_certificates: Vec<Vec<u8>>,
        server: Identity,
        client: Option<Identity>,
        client_fingerprint: TlsClientFingerprint,
        use_system_roots: bool,
    ) -> (r: Result<TlsContext, TransportError>)
        ensures
            Self::made_of(
                r,
                TlsMaterial {
                    trusted: byte_strings(trusted_certificates@),
                    server: server.content(),
                    client: match client {
                        Some(i) => Some(i.content()),
                        None => None,
                    },
                    fingerprint: client_fingerprint,
                    system_roots: use_system_roots,
                },
            ),
    {
        if server.chain.len() == 0 {
            return Err(TransportError::Tls(String::from_str("certificate chain is empty")));
        }
        let cert_der: Vec<u8> = copy_bytes(server.chain[0].as_slice());
        let mut store: rustls::RootCertStore = match fill_store(&trusted_certificates) {
            Ok(s) => s,
            Err(e) => return Err(TransportError::Tls(e)),
        };
        if use_system_roots {
            add_web_anchors(&mut store);
        }
        let client_config: rustls::ClientConfig = match &client {
            Some(i) => {
                let i: Identity = i.duplicate();
                match certified_client(store, i.chain, i.key) {
                    Ok(c) => c,
                    Err(e) => return Err(TransportError::Tls(e)),
                }
            },
            None => anonymous_client(store),
        };
        let s: Identity = server.duplicate();
        let server_config: rustls::ServerConfig = match certified_server(s.chain, s.key) {
            Ok(c) => c,
            Err(e) => return Err(TransportError::Tls(e)),
        };
        Ok(
            TlsContext {
                trusted_certificates,
                server,
                client,
                client_config: std::sync::Arc::new(client_config),
                server_config: std::sync::Arc::new(server_config),
                cert_der,
                client_fingerprint,
                use_system_roots,
            },
        )
    }

    /// Material for trials: a certificate for `debug_names`, made for the purpose, which
    /// trusts itself. Which certificate is made, and whether one can be, is left open.
    pub fn for_debug() -> (r: Result<TlsContext, TransportError>)
        ensures
            match r {
                Ok(t) => t.consistent() && t@.trusted.len() == 1 && t@.server.0 == t@.trusted
                    && t@.server.1 is Pkcs8 && t@.client is None && t@.fingerprint
                    == TlsClientFingerprint::Rustls && !t@.system_roots,
                Err(e) => e@ is Tls,
            },
    {
        let (cert, key): (Vec<u8>, Vec<u8>) = match self_signed(debug_names()) {
            Ok(p) => p,
            Err(e) => return Err(TransportError::Tls(e)),
        };
        Self::self_trusting(cert, key)
    }

    /// Material that presents one certificate, with a key in PKCS #8, and trusts
    /// nothing else.
    pub fn self_trusting(cert: Vec<u8>, key: Vec<u8>) -> (r: Result<TlsContext, TransportError>)
        ensures
            Self::made_of(
                r,
                TlsMaterial {
                    trusted: seq![cert@],
                    server: (seq![cert@], Key::Pkcs8(key@)),
                    client: None,
                    fingerprint: TlsClientFingerprint::Rustls,
                    system_roots: false,
                },
            ),
    {
        let mut trusted: Vec<Vec<u8>> = Vec::new();
        trusted.push(copy_bytes(cert.as_slice()));
        let mut chain: Vec<Vec<u8>> = Vec::new();
        chain.push(cert);
        assert(byte_strings(trusted@) =~= seq![cert@]);
        assert(byte_strings(chain@) =~= seq![cert@]);
        Self::from_materials_with_roots(
            trusted,
            Identity { chain, key: PrivateKey::Pkcs8(key) },
            None,
            TlsClientFingerprint::Rustls,
            false,
        )
    }

    fn copy_client(&self) -> (c: Option<Identity>)
        ensures
            self@.client == match c {
                Some(i) => Some(i.content()),
                None => None,
            },
    {
        match &self.client {
            Some(i) => Some(i.duplicate()),
            None => None,
        }
    }

    /// The same with further certificates trusted.
    pub fn with_trusted_certificates(&self, certs: Vec<Vec<u8>>) -> (r: Result<
        TlsContext,
        TransportError,
    >)
        ensures
            Self::made_of(
                r,
                TlsMaterial { trusted: self@.trusted + byte_strings(certs@), ..self@ },
            ),
    {
        let mut all: Vec<Vec<u8>> = copy_byte_strings(&self.trusted_certificates);
        let mut i: usize = 0;
        while i < certs.len()
            invariant
                i <= certs@.len(),
                byte_strings(all@) == byte_strings(self.trusted_certificates@) + byte_strings(
                    certs@,
                ).take(i as int),
            decreases certs@.len() - i,
        {
            let ghost before = all@;
            let b: Vec<u8> = copy_bytes(certs[i].as_slice());
            all.push(b);
            i = i + 1;
            assert(byte_strings(all@) =~= byte_strings(before).push(b@));
            assert(byte_strings(certs@).take(i as int) =~= byte_strings(certs@).take(i - 1).push(
                byte_strings(certs@)[i - 1],
            ));
        }
        assert(byte_strings(certs@).take(i as int) =~= byte_strings(certs@));
        Self::from_materials_with_roots(
            all,
            self.server.duplicate(),
            self.copy_client(),
            self.client_fingerprint,
            self.use_system_roots,
        )
    }

    /// The same with another chain and key presented to those who connect.
    pub fn with_server_identity(&self, certs: Vec<Vec<u8>>, key: PrivateKey) -> (r: Result<
        TlsContext,
        TransportError,
    >)
        ensures
            Self::made_of(
                r,
                TlsMaterial { server: (byte_strings(certs@), key@), ..self@ },
            ),
    {
        Self::from_materials_with_roots(
            copy_byte_strings(&self.trusted_certificates),
            Identity { chain: certs, key },
            self.copy_client(),
            self.client_fingerprint,
            self.use_system_roots,
        )
    }

    /// The same with a chain and key presented to those who are connected to.
    pub fn with_client_identity(&self, certs: Vec<Vec<u8>>, key: PrivateKey) -> (r: Result<
        TlsContext,
        TransportError,
    >)
        ensures
            Self::made_of(
                r,
                TlsMaterial { client: Some((byte_strings(certs@), key@)), ..self@ },
            ),
    {
        Self::from_materials_with_roots(
            copy_byte_strings(&self.trusted_certificates),
            self.server.duplicate(),
            Some(Identity { chain: certs, key }),
            self.client_fingerprint,
            self.use_system_roots,
        )
    }

    /// The certificates that a server presents.
    pub fn server_cert_chain_der(&self) -> (c: &Vec<Vec<u8>>)
        ensures
            *c == self.server.chain,
    {
        &self.server.chain
    }

    /// The key that a server proves itself with.
    pub fn server_private_key_der(&self) -> (k: &PrivateKey)
        ensures
            *k == self.server.key,
    {
        &self.server.key
    }

    /// The same with the authorities of the public web trusted, or not.
    pub fn with_system_roots(&self, enabled: bool) -> (r: Result<TlsContext, TransportError>)
        ensures
            Self::made_of(r, TlsMaterial { system_roots: enabled, ..self@ }),
    {
        Self::from_materials_with_roots(
            copy_byte_strings(&self.trusted_certificates),
            self.server.duplicate(),
            self.copy_client(),
            self.client_fingerprint,
            enabled,
        )
    }
}

/// What every transport operation is given. `R` finds the addresses of hosts.
pub struct TransportContext<R> {
    pub resolver: R,
    pub tls: TlsContext,
    pub tcp: TcpTransportSettings,
    pub quic: QuicTransportSettings,
    pub websocket_mode: WebSocketClientMode,
    pub tracing: TracingHooks,
    pub metrics: MetricsHooks,
    /// The name shown to others in place of the host's.
    pub default_sni: Option<String>,
    /// The secret of the obfuscating handshake.
    pub obfs4_psk: Option<[u8; 32]>,
    /// The path that opens the tunnel in a web site.
    pub webtunnel_secret_path: Option<String>,
    /// What is shown to the tunnel besides.
    pub webtunnel_auth_token: Option<Vec<u8>>,
    /// The directory that the web site is served from.
    pub webtunnel_decoy_dir: Option<String>,
    /// The proxy that is tried when no other way works.
    pub outbound_socks_fallback_proxy: Option<String>,
    /// The forms of the obfuscating handshake that are accepted, in order.
    pub obfs4_accept_variants: Vec<WireFormatVariant>,
    /// The form of the obfuscating handshake that is spoken.
    pub obfs4_client_variant: WireFormatVariant,
    /// Whether the first message has an extension that hides the name, filled at
    /// random.
    pub tls_ech_grease: bool,
    /// Which looks the first message is given.
    pub tls_fingerprint: TlsFingerprintPolicy,
}

impl Clone for TlsContext {
    fn clone(&self) -> (c: TlsContext)
        ensures
            c@ == self@,
            c.client_config == self.client_config,
            c.server_config == self.server_config,
            c.cert_der@ == self.cert_der@,
            self.consistent() ==> c.consistent(),
    {
        TlsContext {
            trusted_certificates: copy_byte_strings(&self.trusted_certificates),
            server: self.server.duplicate(),
            client: self.copy_client(),
            client_config: self.client_config.clone(),
            server_config: self.server_config.clone(),
            cert_der: copy_bytes(self.cert_der.as_slice()),
            client_fingerprint: self.client_fingerprint,
            use_system_roots: self.use_system_roots,
        }
    }
}

fn copy_text(t: &Option<String>) -> (c: Option<String>)
    ensures
        shown(c) == shown(*t),
{
    match t {
        Some(s) => Some(s.clone()),
        None => None,
    }
}

/// The characters of a text that may be absent.
pub open spec fn shown(t: Option<String>) -> Option<Seq<char>> {
    match t {
        Some(s) => Some(s@),
        None => None,
    }
}

impl<R: Clone> Clone for TransportContext<R> {
    fn clone(&self) -> (c: TransportContext<R>)
        ensures
            cloned(self.resolver, c.resolver),
            c.tls@ == self.tls@,
            c.tls.client_config == self.tls.client_config,
            c.tls.server_config == self.tls.server_config,
            c.tls.cert_der@ == self.tls.cert_der@,
            self.tls.consistent() ==> c.tls.consistent(),
            c.tcp == self.tcp,
            c.quic == self.quic,
            c.websocket_mode == self.websocket_mode,
            shown(c.default_sni) == shown(self.default_sni),
            c.obfs4_psk == self.obfs4_psk,
            shown(c.webtunnel_secret_path) == shown(self.webtunnel_secret_path),
            c.webtunnel_auth_token is Some == self.webtunnel_auth_token is Some,
            c.webtunnel_auth_token matches Some(t) ==> t@ == self.webtunnel_auth_token->0@,
            shown(c.webtunnel_decoy_dir) == shown(self.webtunnel_decoy_dir),
            shown(c.outbound_socks_fallback_proxy) == shown(self.outbound_socks_fallback_proxy),
            c.obfs4_accept_variants@ == self.obfs4_accept_variants@,
            c.obfs4_client_variant == self.obfs4_client_variant,
            c.tls_ech_grease == self.tls_ech_grease,
            c.tls_fingerprint@ == self.tls_fingerprint@,
    {
        let n: usize = self.obfs4_accept_variants.len();
        let mut variants: Vec<WireFormatVariant> = Vec::new();
        let mut i: usize = 0;
        while i < n
            invariant
                i <= n,
                n == self.obfs4_accept_variants@.len(),
                variants@ =~= self.obfs4_accept_variants@.take(i as int),
            decreases n - i,
        {
            variants.push(self.obfs4_accept_variants[i]);
            i = i + 1;
        }
        let token: Option<Vec<u8>> = match &self.webtunnel_auth_token {
            Some(t) => Some(copy_bytes(t.as_slice())),
            None => None,
        };
        TransportContext {
            resolver: self.resolver.clone(),
            tls: self.tls.clone(),
            tcp: self.tcp,
            quic: self.quic,
            websocket_mode: self.websocket_mode,
            tracing: self.tracing,
            metrics: self.metrics,
            default_sni: copy_text(&self.default_sni),
            obfs4_psk: self.obfs4_psk,
            webtunnel_secret_path: copy_text(&self.webtunnel_secret_path),
            webtunnel_auth_token: token,
            webtunnel_decoy_dir: copy_text(&self.webtunnel_decoy_dir),
            outbound_socks_fallback_proxy: copy_text(&self.outbound_socks_fallback_proxy),
            obfs4_accept_variants: variants,
            obfs4_client_variant: self.obfs4_client_variant,
            tls_ech_grease: self.tls_ech_grease,
            tls_fingerprint: self.tls_fingerprint.clone(),
        }
    }
}

impl<R> TransportContext<R> {
    /// The settings that a fresh context has besides those that it is made of.
    pub open spec fn plain(self) -> bool {
        &&& self.default_sni is None
        &&& self.obfs4_psk is None
        &&& self.webtunnel_secret_path is None
        &&& self.webtunnel_auth_token is None
        &&& self.webtunnel_decoy_dir is None
        &&& self.outbound_socks_fallback_proxy is None
        &&& self.obfs4_accept_variants@ == seq![WireFormatVariant::V1]
        &&& self.obfs4_client_variant == WireFormatVariant::V1
        &&& !self.tls_ech_grease
        &&& self.tls_fingerprint@ == Rule::standard()
    }

    /// A context with nothing set but what is given.
    pub fn new(
        resolver: R,
        tls: TlsContext,
        tcp: TcpTransportSettings,
        quic: QuicTransportSettings,
    ) -> (c: TransportContext<R>)
        ensures
            c.resolver == resolver,
            c.tls == tls,
            c.tcp == tcp,
            c.quic == quic,
            c.plain(),
    {
        let mut variants: Vec<WireFormatVariant> = Vec::new();
        variants.push(WireFormatVariant::V1);
        assert(variants@ =~= seq![WireFormatVariant::V1]);
        TransportContext {
            resolver,
            tls,
            tcp,
            quic,
            websocket_mode: WebSocketClientMode::Standard,
            tracing: TracingHooks,
            metrics: MetricsHooks,
            default_sni: None,
            obfs4_psk: None,
            webtunnel_secret_path: None,
            webtunnel_auth_token: None,
            webtunnel_decoy_dir: None,
            outbound_socks_fallback_proxy: None,
            obfs4_accept_variants: variants,
            obfs4_client_variant: WireFormatVariant::V1,
            tls_ech_grease: false,
            tls_fingerprint: TlsFingerprintPolicy::default(),
        }
    }

    /// The name that is shown for a host.
    pub open spec fn sni_for(self, uri_sni: Option<Seq<char>>, host: Seq<char>) -> Seq<char> {
        match uri_sni {
            Some(s) => s,
            None => match self.default_sni {
                Some(d) => if TransportUri::is_local(host) {
                    host
                } else {
                    d@
                },
                None => host,
            },
        }
    }

    /// The name that is shown for a host: the one in the address if there is one,
    /// else the one that is set, unless the host is this machine, else the host's.
    pub fn effective_sni<'a>(&'a self, uri_sni: Option<&'a str>, host: &'a str) -> (s: &'a str)
        ensures
            s@ == self.sni_for(
                match uri_sni {
                    Some(u) => Some(u@),
                    None => None,
                },
                host@,
            ),
    {
        if let Some(s) = uri_sni {
            return s;
        }
        if let Some(d) = &self.default_sni {
            if !TransportUri::host_is_localhost(host) {
                return d.as_str();
            }
        }
        host
    }

    /// The name of a server, if it is one: a name of the domain name system or an
    /// address.
    pub fn server_name(&self, name: &str) -> (r: Result<String, TransportError>)
        ensures
            match server_name_fault(name@) {
                None => r matches Ok(n) && n@ == name@,
                Some(m) => r matches Err(e) && e@ == Failure::InvalidUri(m),
            },
    {
        match check_server_name(name) {
            None => Ok(String::from_str(name)),
            Some(e) => Err(TransportError::InvalidUri(e)),
        }
    }

    /// The same with another limit on how long TCP connections may take.
    pub fn with_tcp_connect_timeout(self, timeout: Duration) -> (c: TransportContext<R>)
        ensures
            c == (TransportContext {
                tcp: TcpTransportSettings { connect_timeout: timeout, ..self.tcp },
                ..self
            }),
    {
        let mut c = self;
        c.tcp.connect_timeout = timeout;
        c
    }

    /// The same with another name to show.
    pub fn with_default_sni(self, sni: Option<String>) -> (c: TransportContext<R>)
        ensures
            c == (TransportContext { default_sni: sni, ..self }),
    {
        let mut c = self;
        c.default_sni = sni;
        c
    }

    /// The same with the extension that hides the name, or without.
    pub fn with_tls_ech_grease(self, enabled: bool) -> (c: TransportContext<R>)
        ensures
            c == (TransportContext { tls_ech_grease: enabled, ..self }),
    {
        let mut c = self;
        c.tls_ech_grease = enabled;
        c
    }

    /// The same with other looks of the first message.
    pub fn with_tls_fingerprint(self, policy: TlsFingerprintPolicy) -> (c: TransportContext<R>)
        ensures
            c == (TransportContext { tls_fingerprint: policy, ..self }),
    {
        let mut c = self;
        c.tls_fingerprint = policy;
        c
    }

    /// The same with other TLS material.
    pub fn with_tls(self, tls: TlsContext) -> (c: TransportContext<R>)
        ensures
            c == (TransportContext { tls, ..self }),
    {
        let mut c = self;
        c.tls = tls;
        c
    }
}

impl TransportContext<SystemDnsResolver> {
    /// A context for trials, with material of its own.
    pub fn for_debug() -> (r: Result<TransportContext<SystemDnsResolver>, TransportError>)
        ensures
            match r {
                Ok(c) => {
                    &&& c.plain()
                    &&& c.tls.consistent()
                    &&& c.tls@.trusted.len() == 1
                    &&& c.tls@.server.0 == c.tls@.trusted
                    &&& c.tls@.server.1 is Pkcs8
                    &&& c.tls@.client is None
                    &&& c.tls@.fingerprint == TlsClientFingerprint::Rustls
                    &&& !c.tls@.system_roots
                    &&& c.tcp.connect_timeout@ == 10 * NANOS_PER_SEC
                    &&& c.tcp.nodelay
                    &&& c.tcp.keepalive_idle matches Some(d) && d@ == 60 * NANOS_PER_SEC
                    &&& c.quic.connect_timeout@ == 10 * NANOS_PER_SEC
                    &&& c.quic.handshake_timeout@ == 10 * NANOS_PER_SEC
                    &&& c.quic.bind_addr == (SocketAddress::V4 { ip: 0, port: 0 })
                },
                Err(e) => e@ is Tls,
            },
    {
        match TlsContext::for_debug() {
            Ok(tls) => Ok(
                TransportContext::new(
                    SystemDnsResolver,
                    tls,
                    TcpTransportSettings::default(),
                    QuicTransportSettings::default(),
                ),
            ),
            Err(e) => Err(e),
        }
    }
}

/// Changing who a node is to those who connect leaves whom it trusts as it was: a
/// certificate added before is still trusted.
pub proof fn identity_change_keeps_trust(
    before: TlsMaterial,
    added: Seq<Seq<u8>>,
    chain: Seq<Seq<u8>>,
    key: Key,
    cert: Seq<u8>,
)
    requires
        added.contains(cert),
    ensures
        ({
            let with_ca = TlsMaterial { trusted: before.trusted + added, ..before };
            let after = TlsMaterial { server: (chain, key), ..with_ca };
            after.trusted.contains(cert) && after.server.0 == chain && after.system_roots
                == before.system_roots
        }),
{
    let i = choose|i: int| 0 <= i < added.len() && added[i] == cert;
    assert((before.trusted + added)[before.trusted.len() + i] == cert);
}

/// A name in the address is always the one that is shown, and a name that is set is
/// never shown to this machine.
pub proof fn shown_name_precedence<R>(c: TransportContext<R>, uri_sni: Seq<char>, host: Seq<char>)
    ensures
        c.sni_for(Some(uri_sni), host) == uri_sni,
        TransportUri::is_local(host) ==> c.sni_for(None, host) == host,
{
}

/// What a context is made of is what it holds and what its configurations present and
/// trust, and its certificate is the first of its chain; without a chain none is made.
pub proof fn a_context_holds_its_material(
    trusted: Vec<Vec<u8>>,
    server: Identity,
    client: Option<Identity>,
    look: TlsClientFingerprint,
    roots: bool,
    r: Result<TlsContext, TransportError>,
)
    requires
        call_ensures(
            TlsContext::from_materials_with_roots,
            (trusted, server, client, look, roots),
            r,
        ),
    ensures
        server.chain@.len() == 0 ==> r is Err,
        r is Err ==> r->Err_0 is Tls,
        r is Ok ==> {
            let t = r->Ok_0;
            &&& byte_strings(t.trusted_certificates@) == byte_strings(trusted@)
            &&& byte_strings(t.server.chain@) == byte_strings(server.chain@)
            &&& t.server.key@ == server.key@
            &&& t.client is Some == client is Some
            &&& client is Some ==> byte_strings(t.client->0.chain@) == byte_strings(
                client->0.chain@,
            ) && t.client->0.key@ == client->0.key@
            &&& t.client_fingerprint == look
            &&& t.use_system_roots == roots
            &&& server_identity_in(*t.server_config) == (
                byte_strings(server.chain@),
                server.key@,
            )
            &&& client is None ==> client_identity_in(*t.client_config) is None
            &&& client is Some ==> client_identity_in(*t.client_config) == Some(
                (byte_strings(client->0.chain@), client->0.key@),
            )
            &&& t.cert_der@ == server.chain@[0]@
        },
        server.chain@.len() > 0 && anchors_in(byte_strings(trusted@)) is Ok && pairing_error(
            byte_strings(server.chain@),
            server.key@,
        ) is None && client is None ==> r is Ok,
{
    assert(byte_strings(server.chain@).len() == server.chain@.len());
    if server.chain@.len() > 0 {
        assert(byte_strings(server.chain@)[0] == server.chain@[0]@);
    }
}

proof fn lemma_one_anchor_each(trusted: Seq<Seq<u8>>, i: int)
    requires
        anchors_in(trusted) is Ok,
        0 <= i < trusted.len(),
    ensures
        anchors_in(trusted)->Ok_0.len() == trusted.len(),
        anchor_in(trusted[i]) is Ok,
        anchors_in(trusted)->Ok_0[i] == anchor_in(trusted[i])->Ok_0,
    decreases trusted.len(),
{
    let rest = trusted.drop_last();
    if i < rest.len() {
        lemma_one_anchor_each(rest, i);
        assert(rest[i] == trusted[i]);
    } else if rest.len() > 0 {
        lemma_one_anchor_each(rest, 0);
    }
}

/// Every certificate that is to be trusted is, at its place, and nothing else unless the
/// authorities of the public web are wanted.
pub proof fn every_trusted_certificate_is_trusted(
    trusted: Vec<Vec<u8>>,
    server: Identity,
    client: Option<Identity>,
    look: TlsClientFingerprint,
    r: Result<TlsContext, TransportError>,
    i: int,
)
    requires
        call_ensures(
            TlsContext::from_materials_with_roots,
            (trusted, server, client, look, false),
            r,
        ),
        r is Ok,
        0 <= i < trusted@.len(),
    ensures
        trusted_anchors(*r->Ok_0.client_config).len() == trusted@.len(),
        anchor_in(trusted@[i]@) is Ok,
        trusted_anchors(*r->Ok_0.client_config)[i] == anchor_in(trusted@[i]@)->Ok_0,
{
    let all = byte_strings(trusted@);
    assert(all.len() == trusted@.len());
    assert(all[i] == trusted@[i]@);
    assert(r->Ok_0@.trusted == all);
    lemma_one_anchor_each(all, i);
}

/// Each change of a context changes what it is about and keeps the rest.
pub proof fn a_changed_context_keeps_the_rest(
    t: &TlsContext,
    certs: Vec<Vec<u8>>,
    key: PrivateKey,
    roots: bool,
    a: Result<TlsContext, TransportError>,
    b: Result<TlsContext, TransportError>,
    c: Result<TlsContext, TransportError>,
    d: Result<TlsContext, TransportError>,
)
    requires
        call_ensures(TlsContext::with_trusted_certificates, (t, certs), a),
        call_ensures(TlsContext::with_server_identity, (t, certs, key), b),
        call_ensures(TlsContext::with_client_identity, (t, certs, key), c),
        call_ensures(TlsContext::with_system_roots, (t, roots), d),
    ensures
        a is Ok ==> a->Ok_0@.trusted == t@.trusted + byte_strings(certs@) && a->Ok_0@.server
            == t@.server && a->Ok_0@.client == t@.client && a->Ok_0@.system_roots
            == t@.system_roots && a->Ok_0@.fingerprint == t@.fingerprint,
        b is Ok ==> b->Ok_0@.server == (byte_strings(certs@), key@) && b->Ok_0@.trusted
            == t@.trusted && b->Ok_0@.client == t@.client && b->Ok_0@.system_roots
            == t@.system_roots && b->Ok_0@.fingerprint == t@.fingerprint,
        c is Ok ==> c->Ok_0@.client == Some((byte_strings(certs@), key@)) && c->Ok_0@.trusted
            == t@.trusted && c->Ok_0@.server == t@.server && c->Ok_0@.system_roots
            == t@.system_roots && c->Ok_0@.fingerprint == t@.fingerprint,
        d is Ok ==> d->Ok_0@.system_roots == roots && d->Ok_0@.trusted == t@.trusted
            && d->Ok_0@.server == t@.server && d->Ok_0@.client == t@.client
            && d->Ok_0@.fingerprint == t@.fingerprint,
        b is Ok ==> server_identity_in(*b->Ok_0.server_config) == (byte_strings(certs@), key@),
        c is Ok ==> client_identity_in(*c->Ok_0.client_config) == Some(
            (byte_strings(certs@), key@),
        ),
{
}

/// Which name is shown: that of the address before all, then the one that is set unless the
/// host is this machine, then the host's.
pub proof fn which_name_is_shown<R>(
    c: &TransportContext<R>,
    uri_sni: Option<&str>,
    host: &str,
    s: &str,
)
    requires
        call_ensures(TransportContext::<R>::effective_sni, (c, uri_sni, host), s),
    ensures
        ({
            let local = host@ == "localhost"@ || host@ == "127.0.0.1"@ || host@ == "::1"@;
            &&& uri_sni is Some ==> s@ == uri_sni->0@
            &&& uri_sni is None && (c.default_sni is None || local) ==> s@ == host@
            &&& uri_sni is None && c.default_sni is Some && !local ==> s@ == c.default_sni->0@
        }),
{
}

/// A name is kept as it is when it is one of a server, and refused as an address otherwise.
pub proof fn server_names_are_kept<R>(
    c: &TransportContext<R>,
    name: &str,
    r: Result<String, TransportError>,
)
    requires
        call_ensures(TransportContext::<R>::server_name, (c, name), r),
    ensures
        r is Ok <==> server_name_fault(name@) is None,
        r is Ok ==> r->Ok_0@ == name@,
        r is Err ==> r->Err_0 is InvalidUri,
{
}

/// A fresh context has nothing set but what it was given.
pub proof fn a_fresh_context_is_plain<R>(
    resolver: R,
    tls: TlsContext,
    tcp: TcpTransportSettings,
    quic: QuicTransportSettings,
    c: TransportContext<R>,
)
    requires
        call_ensures(TransportContext::<R>::new, (resolver, tls, tcp, quic), c),
    ensures
        c.tls == tls && c.tcp == tcp && c.quic == quic && c.resolver == resolver,
        c.default_sni is None && c.obfs4_psk is None && c.webtunnel_secret_path is None,
        c.webtunnel_auth_token is None && c.webtunnel_decoy_dir is None,
        c.outbound_socks_fallback_proxy is None,
        c.obfs4_client_variant == WireFormatVariant::V1,
        c.obfs4_accept_variants@.len() == 1 && c.obfs4_accept_variants@[0]
            == WireFormatVariant::V1,
        !c.tls_ech_grease,
{
}

/// Each setting that is changed is the one that is asked for, and the others stay.
pub proof fn settings_change_one_at_a_time<R>(
    c: TransportContext<R>,
    timeout: Duration,
    sni: Option<String>,
    grease: bool,
    a: TransportContext<R>,
    b: TransportContext<R>,
    d: TransportContext<R>,
)
    requires
        call_ensures(TransportContext::<R>::with_tcp_connect_timeout, (c, timeout), a),
        call_ensures(TransportContext::<R>::with_default_sni, (c, sni), b),
        call_ensures(TransportContext::<R>::with_tls_ech_grease, (c, grease), d),
    ensures
        a.tcp.connect_timeout == timeout && a.tcp.nodelay == c.tcp.nodelay
            && a.tcp.keepalive_idle == c.tcp.keepalive_idle,
        a.tls == c.tls && a.quic == c.quic && a.default_sni == c.default_sni && a.tls_ech_grease
            == c.tls_ech_grease && a.tls_fingerprint == c.tls_fingerprint,
        b.default_sni == sni && b.tls == c.tls && b.tcp == c.tcp && b.quic == c.quic
            && b.tls_ech_grease == c.tls_ech_grease && b.tls_fingerprint == c.tls_fingerprint,
        d.tls_ech_grease == grease && d.tls == c.tls && d.tcp == c.tcp && d.quic == c.quic
            && d.default_sni == c.default_sni && d.tls_fingerprint == c.tls_fingerprint,
{
}

/// Where the authorities of the public web are wanted, they are trusted behind the
/// certificates that are.
pub proof fn web_authorities_are_trusted_when_wanted(
    trusted: Vec<Vec<u8>>,
    server: Identity,
    client: Option<Identity>,
    look: TlsClientFingerprint,
    plain: Result<TlsContext, TransportError>,
    web: Result<TlsContext, TransportError>,
)
    requires
        call_ensures(
            TlsContext::from_materials_with_roots,
            (trusted, server, client, look, false),
            plain,
        ),
        call_ensures(
            TlsContext::from_materials_with_roots,
            (trusted, server, client, look, true),
            web,
        ),
    ensures
        plain is Ok <==> web is Ok,
        web is Ok ==> trusted_anchors(*web->Ok_0.client_config) == with_web_anchors(
            trusted_anchors(*plain->Ok_0.client_config),
        ),
{
}

/// A fresh context shows Chrome, Firefox and Safari in turn, beginning with the one that
/// last got through.
pub proof fn a_fresh_context_looks_like_browsers<R>(
    resolver: R,
    tls: TlsContext,
    tcp: TcpTransportSettings,
    quic: QuicTransportSettings,
    c: TransportContext<R>,
)
    requires
        call_ensures(TransportContext::<R>::new, (resolver, tls, tcp, quic), c),
    ensures
        c.tls_fingerprint@.sticky,
        c.tls_fingerprint@.choice == crate::transport::fingerprint::Choice::Rotate(
            seq![
                crate::transport::fingerprint::TlsFingerprint::Chrome,
                crate::transport::fingerprint::TlsFingerprint::Firefox,
                crate::transport::fingerprint::TlsFingerprint::Safari,
            ],
        ),
{
}

} // verus!
