//! Certificates, keys, and the TLS configurations that rustls makes of them.

use crate::bytes::{byte_strings, copy_bytes};
use crate::transport::error::{Failure, TransportError};
use rustls_pki_types::pem::PemObject;
use rustls_pki_types::{CertificateDer, PrivateKeyDer};
use vstd::prelude::*;
use vstd::string::*;

verus! {

/// A private key, by the form that it is encoded in.
pub enum PrivateKey {
    Pkcs1(Vec<u8>),
    Sec1(Vec<u8>),
    Pkcs8(Vec<u8>),
}

/// The content of a [`PrivateKey`].
#[verifier::ext_equal]
pub ghost enum Key {
    Pkcs1(Seq<u8>),
    Sec1(Seq<u8>),
    Pkcs8(Seq<u8>),
}

impl View for PrivateKey {
    type V = Key;

    open spec fn view(&self) -> Key {
        match self {
            PrivateKey::Pkcs1(k) => Key::Pkcs1(k@),
            PrivateKey::Sec1(k) => Key::Sec1(k@),
            PrivateKey::Pkcs8(k) => Key::Pkcs8(k@),
        }
    }
}

impl PrivateKey {
    /// A copy of the key.
    pub fn clone_key(&self) -> (k: PrivateKey)
        ensures
            k@ == self@,
    {
        match self {
            PrivateKey::Pkcs1(k) => PrivateKey::Pkcs1(copy_bytes(k.as_slice())),
            PrivateKey::Sec1(k) => PrivateKey::Sec1(copy_bytes(k.as_slice())),
            PrivateKey::Pkcs8(k) => PrivateKey::Pkcs8(copy_bytes(k.as_slice())),
        }
    }
}

/// What a trusted certificate is reduced to: its subject, its public key and, where
/// it has any, its constraints on names.
#[verifier::ext_equal]
pub ghost struct Anchor {
    pub subject: Seq<u8>,
    pub public_key: Seq<u8>,
    pub name_constraints: Option<Seq<u8>>,
}

#[verifier::external_type_specification]
#[verifier::external_body]
pub struct ExRootCertStore(rustls::RootCertStore);

#[verifier::external_type_specification]
#[verifier::external_body]
pub struct ExClientConfig(rustls::ClientConfig);

#[verifier::external_type_specification]
#[verifier::external_body]
pub struct ExServerConfig(rustls::ServerConfig);

/// The anchors in a store, in order.
pub uninterp spec fn anchors(store: rustls::RootCertStore) -> Seq<Anchor>;

/// The anchor that a certificate is reduced to, or why it cannot be.
pub uninterp spec fn anchor_in(der: Seq<u8>) -> Result<Anchor, Seq<char>>;

/// Anchors with those of the public web behind them.
pub uninterp spec fn with_web_anchors(before: Seq<Anchor>) -> Seq<Anchor>;

/// Why a chain of certificates and a key do not go together; nothing when they do.
/// It is what `rustls::sign::CertifiedKey::from_der` says of them, which decides for
/// clients and servers alike.
pub uninterp spec fn pairing_error(chain: Seq<Seq<u8>>, key: Key) -> Option<Seq<char>>;

/// The anchors that a client configuration trusts.
pub uninterp spec fn trusted_anchors(config: rustls::ClientConfig) -> Seq<Anchor>;

/// The chain and key that a client configuration presents, if it presents any.
pub uninterp spec fn client_identity_in(config: rustls::ClientConfig) -> Option<
    (Seq<Seq<u8>>, Key),
>;

/// The chain and key that a server configuration presents.
pub uninterp spec fn server_identity_in(config: rustls::ServerConfig) -> (Seq<Seq<u8>>, Key);

/// `rustls::RootCertStore::empty` makes a store without anchors.
pub assume_specification[ rustls::RootCertStore::empty ]() -> (s: rustls::RootCertStore)
    ensures
        anchors(s) == Seq::<Anchor>::empty(),
;

/// Calls `rustls::RootCertStore::add`. It puts the certificate's anchor behind
/// those in the store, or fails and leaves the store as it is. The error is
/// returned as rustls words it.
#[verifier::external_body]
pub(crate) fn add_anchor(store: &mut rustls::RootCertStore, der: Vec<u8>) -> (r: Result<(), String>)
    ensures
        match anchor_in(der@) {
            Ok(a) => r is Ok && anchors(*final(store)) == anchors(*old(store)).push(a),
            Err(m) => r matches Err(e) && e@ == m && anchors(*final(store)) == anchors(
                *old(store),
            ),
        },
{
    store.add(CertificateDer::from(der)).map_err(|e| e.to_string())
}

/// Calls `extend` of `rustls::RootCertStore` with `webpki_roots::TLS_SERVER_ROOTS`.
/// The store keeps its anchors and has those of the public web behind them.
#[verifier::external_body]
pub(crate) fn add_web_anchors(store: &mut rustls::RootCertStore)
    ensures
        anchors(*final(store)) == with_web_anchors(anchors(*old(store))),
        anchors(*old(store)).is_prefix_of(anchors(*final(store))),
{
    store.extend(webpki_roots::TLS_SERVER_ROOTS.iter().cloned());
}

/// Builds a `rustls::ClientConfig` with `with_no_client_auth`, on the `aws_lc_rs`
/// provider and the default protocol versions. It trusts the store's anchors and
/// presents no certificate.
#[verifier::external_body]
pub(crate) fn anonymous_client(store: rustls::RootCertStore) -> (c: rustls::ClientConfig)
    ensures
        trusted_anchors(c) == anchors(store),
        client_identity_in(c) is None,
{
    let provider = std::sync::Arc::new(rustls::crypto::aws_lc_rs::default_provider());
    rustls::ClientConfig::builder_with_provider(provider)
        .with_safe_default_protocol_versions()
        .unwrap()
        .with_root_certificates(store)
        .with_no_client_auth()
}

/// Builds a `rustls::ClientConfig` with `with_client_auth_cert`, on the `aws_lc_rs`
/// provider and the default protocol versions. It trusts the store's anchors and
/// presents the chain, or fails because the chain and the key do not go together.
/// The error is returned as rustls words it.
#[verifier::external_body]
pub(crate) fn certified_client(
    store: rustls::RootCertStore,
    chain: Vec<Vec<u8>>,
    key: PrivateKey,
) -> (r: Result<rustls::ClientConfig, String>)
    ensures
        match pairing_error(byte_strings(chain@), key@) {
            None => r matches Ok(c) && trusted_anchors(c) == anchors(store) && client_identity_in(c)
                == Some((byte_strings(chain@), key@)),
            Some(m) => r matches Err(e) && e@ == m,
        },
{
    let certs = chain.into_iter().map(CertificateDer::from).collect();
    let key = match key {
        PrivateKey::Pkcs1(k) => PrivateKeyDer::Pkcs1(k.into()),
        PrivateKey::Sec1(k) => PrivateKeyDer::Sec1(k.into()),
        PrivateKey::Pkcs8(k) => PrivateKeyDer::Pkcs8(k.into()),
    };
    let provider = std::sync::Arc::new(rustls::crypto::aws_lc_rs::default_provider());
    rustls::ClientConfig::builder_with_provider(provider)
        .with_safe_default_protocol_versions()
        .unwrap()
        .with_root_certificates(store)
        .with_client_auth_cert(certs, key)
        .map_err(|e| e.to_string())
}

/// Builds a `rustls::ServerConfig` with `with_no_client_auth` and
/// `with_single_cert`, on the `aws_lc_rs` provider and the default protocol
/// versions. It presents the chain, or fails because the chain and the key do not
/// go together. The error is returned as rustls words it.
#[verifier::external_body]
pub(crate) fn certified_server(chain: Vec<Vec<u8>>, key: PrivateKey) -> (r: Result<
    rustls::ServerConfig,
    String,
>)
    ensures
        match pairing_error(byte_strings(chain@), key@) {
            None => r matches Ok(c) && server_identity_in(c) == (byte_strings(chain@), key@),
            Some(m) => r matches Err(e) && e@ == m,
        },
{
    let certs = chain.into_iter().map(CertificateDer::from).collect();
    let key = match key {
        PrivateKey::Pkcs1(k) => PrivateKeyDer::Pkcs1(k.into()),
        PrivateKey::Sec1(k) => PrivateKeyDer::Sec1(k.into()),
        PrivateKey::Pkcs8(k) => PrivateKeyDer::Pkcs8(k.into()),
    };
    let provider = std::sync::Arc::new(rustls::crypto::aws_lc_rs::default_provider());
    rustls::ServerConfig::builder_with_provider(provider)
        .with_safe_default_protocol_versions()
        .unwrap()
        .with_no_client_auth()
        .with_single_cert(certs, key)
        .map_err(|e| e.to_string())
}

/// Calls `rcgen::generate_simple_self_signed`: a fresh certificate for the given
/// names and its key, encoded as PKCS #8. Both are drawn anew by each call.
#[verifier::external_body]
pub(crate) fn self_signed(names: Vec<String>) -> (r: Result<(Vec<u8>, Vec<u8>), String>) {
    let made = rcgen::generate_simple_self_signed(names).map_err(|e| e.to_string())?;
    Ok((made.cert.der().to_vec(), made.key_pair.serialize_der()))
}

/// The certificates in the bytes of a PEM file, in order, or why they cannot be read.
pub uninterp spec fn pem_certificates(pem: Seq<u8>) -> Result<Seq<Seq<u8>>, Seq<char>>;

/// The first private key in the bytes of a PEM file, or why it cannot be read; no
/// key where the first one is in a form other than those of [`Key`].
pub uninterp spec fn pem_private_key(pem: Seq<u8>) -> Result<Option<Key>, Seq<char>>;

/// Collects `CertificateDer::pem_slice_iter` of `rustls_pki_types`: the sections
/// that hold certificates, in order, up to the first that is malformed, whose error
/// is returned as that crate words it. Sections of other kinds are passed over.
#[verifier::external_body]
fn read_pem_certificates(pem: &[u8]) -> (r: Result<Vec<Vec<u8>>, String>)
    ensures
        match pem_certificates(pem@) {
            Ok(found) => r matches Ok(certs) && byte_strings(certs@) == found,
            Err(m) => r matches Err(e) && e@ == m,
        },
{
    CertificateDer::pem_slice_iter(pem)
        .map(|found| found.map(|cert| cert.as_ref().to_vec()).map_err(|e| e.to_string()))
        .collect()
}

/// Calls `PrivateKeyDer::from_pem_slice` of `rustls_pki_types`: the first section
/// that holds a private key, in the form that the section is labelled with. The
/// error, of a malformed section or where no key was found, is returned as that
/// crate words it.
#[verifier::external_body]
fn read_pem_private_key(pem: &[u8]) -> (r: Result<Option<PrivateKey>, String>)
    ensures
        match pem_private_key(pem@) {
            Ok(Some(found)) => r matches Ok(Some(key)) && key@ == found,
            Ok(None) => r matches Ok(None),
            Err(m) => r matches Err(e) && e@ == m,
        },
{
    match PrivateKeyDer::from_pem_slice(pem) {
        Ok(PrivateKeyDer::Pkcs1(k)) => Ok(Some(PrivateKey::Pkcs1(k.secret_pkcs1_der().to_vec()))),
        Ok(PrivateKeyDer::Sec1(k)) => Ok(Some(PrivateKey::Sec1(k.secret_sec1_der().to_vec()))),
        Ok(PrivateKeyDer::Pkcs8(k)) => Ok(Some(PrivateKey::Pkcs8(k.secret_pkcs8_der().to_vec()))),
        Ok(_) => Ok(None),
        Err(e) => Err(e.to_string()),
    }
}

/// The certificates that a PEM file of these bytes holds. A malformed file is a
/// failure of TLS.
pub fn certificates_in_pem(pem: &[u8]) -> (r: Result<Vec<Vec<u8>>, TransportError>)
    ensures
        match pem_certificates(pem@) {
            Ok(found) => r matches Ok(certs) && byte_strings(certs@) == found,
            Err(m) => r matches Err(e) && e@ == Failure::Tls(m),
        },
{
    match read_pem_certificates(pem) {
        Ok(certs) => Ok(certs),
        Err(e) => Err(TransportError::Tls(e)),
    }
}

/// The first private key that a PEM file of these bytes holds. A malformed file,
/// one without a key and one whose key is in an unknown form are failures of TLS.
pub fn private_key_in_pem(pem: &[u8]) -> (r: Result<PrivateKey, TransportError>)
    ensures
        match pem_private_key(pem@) {
            Ok(Some(found)) => r matches Ok(key) && key@ == found,
            Ok(None) => r matches Err(e) && e@ == Failure::Tls("private key format is not known"@),
            Err(m) => r matches Err(e) && e@ == Failure::Tls(m),
        },
{
    known_private_key(read_pem_private_key(pem))
}

/// What becomes of a private key that was read: one in an unknown form, and one
/// that could not be read, are failures of TLS.
pub fn known_private_key(read: Result<Option<PrivateKey>, String>) -> (r: Result<
    PrivateKey,
    TransportError,
>)
    ensures
        match read {
            Ok(Some(found)) => r == Ok::<PrivateKey, TransportError>(found),
            Ok(None) => r matches Err(e) && e@ == Failure::Tls("private key format is not known"@),
            Err(m) => r matches Err(e) && e@ == Failure::Tls(m@),
        },
{
    match read {
        Ok(Some(key)) => Ok(key),
        Ok(None) => Err(TransportError::Tls(String::from_str("private key format is not known"))),
        Err(e) => Err(TransportError::Tls(e)),
    }
}

/// Why a text is no name of a server; nothing when it is one.
pub uninterp spec fn server_name_fault(name: Seq<char>) -> Option<Seq<char>>;

/// Calls `TryFrom<String>` of `rustls_pki_types::ServerName`, which takes the names
/// of the domain name system and addresses of the internet. The error is returned
/// as that crate words it.
#[verifier::external_body]
pub(crate) fn check_server_name(name: &str) -> (r: Option<String>)
    ensures
        match server_name_fault(name@) {
            None => r is None,
            Some(m) => r matches Some(e) && e@ == m,
        },
{
    rustls_pki_types::ServerName::try_from(name.to_owned()).err().map(|e| e.to_string())
}

/// What is read from a PEM file is handed on as it is, and what cannot be read is a failure
/// of the layer.
pub proof fn pem_files_are_handed_on(
    pem: &[u8],
    c: Result<Vec<Vec<u8>>, TransportError>,
    k: Result<PrivateKey, TransportError>,
)
    requires
        call_ensures(certificates_in_pem, (pem,), c),
        call_ensures(private_key_in_pem, (pem,), k),
    ensures
        c is Ok <==> pem_certificates(pem@) is Ok,
        c is Ok ==> byte_strings(c->Ok_0@) == pem_certificates(pem@)->Ok_0,
        c is Err ==> c->Err_0 is Tls && c->Err_0->Tls_0@ == pem_certificates(pem@)->Err_0,
        k is Ok <==> pem_private_key(pem@) is Ok && pem_private_key(pem@)->Ok_0 is Some,
        k is Ok ==> k->Ok_0@ == pem_private_key(pem@)->Ok_0->0,
        k is Err ==> k->Err_0 is Tls,
{
}

/// A key that was read is kept; one in an unknown form or unread is a failure.
pub proof fn a_known_key_is_kept(
    read: Result<Option<PrivateKey>, String>,
    r: Result<PrivateKey, TransportError>,
    k: &PrivateKey,
    copy: PrivateKey,
)
    requires
        call_ensures(known_private_key, (read,), r),
        call_ensures(PrivateKey::clone_key, (k,), copy),
    ensures
        r is Ok <==> read is Ok && read->Ok_0 is Some,
        r is Ok ==> r->Ok_0 == read->Ok_0->0,
        read is Err ==> r->Err_0 is Tls && r->Err_0->Tls_0@ == read->Err_0@,
        copy is Pkcs1 == *k is Pkcs1 && copy is Sec1 == *k is Sec1 && copy is Pkcs8 == *k is Pkcs8,
        *k is Pkcs1 ==> copy->Pkcs1_0@ == k->Pkcs1_0@,
        *k is Sec1 ==> copy->Sec1_0@ == k->Sec1_0@,
        *k is Pkcs8 ==> copy->Pkcs8_0@ == k->Pkcs8_0@,
{
}

} // verus!
