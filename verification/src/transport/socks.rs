//! Connections through a SOCKS5 proxy.

use crate::text::{
    chars_of, decimal_of, find_char, first_of, has_prefix, is_digit, last_of, lemma_decimal_is_read,
    lemma_first_of, number_in, parse_number, part_of, rfind_char, starts_with, text_of,
};
use crate::transport::error::{framed, Failure, TransportError};
use crate::transport::traits::{Transport, TransportCapabilities};
use crate::transport::uri::TransportUri;
use vstd::prelude::*;
use vstd::string::*;

verus! {

/// TCP through a SOCKS5 proxy, in the clear behind the proxy.
#[derive(Debug, Default)]
pub struct SocksTransport;

/// TLS through a SOCKS5 proxy.
#[derive(Debug, Default)]
pub struct SocksTlsTransport;

impl Transport for SocksTransport {
    open spec fn scheme_text(&self) -> Seq<char> {
        "socks"@
    }

    open spec fn offers(&self) -> TransportCapabilities {
        TransportCapabilities::stream()
    }

    fn scheme(&self) -> (s: &'static str) {
        "socks"
    }

    fn capabilities(&self) -> (c: TransportCapabilities) {
        TransportCapabilities::stream_connection()
    }
}

impl Transport for SocksTlsTransport {
    open spec fn scheme_text(&self) -> Seq<char> {
        "sockstls"@
    }

    open spec fn offers(&self) -> TransportCapabilities {
        TransportCapabilities::stream()
    }

    fn scheme(&self) -> (s: &'static str) {
        "sockstls"
    }

    fn capabilities(&self) -> (c: TransportCapabilities) {
        TransportCapabilities::stream_connection()
    }
}

/// What is needed for a connection through a proxy.
pub enum SocksConnectParts<'a> {
    /// In the clear behind the proxy.
    Plain { proxy_host: &'a str, proxy_port: u16, target_host: &'a str, target_port: u16 },
    /// With TLS behind the proxy.
    Tls {
        proxy_host: &'a str,
        proxy_port: u16,
        target_host: &'a str,
        target_port: u16,
        sni: Option<&'a str>,
        alpn: &'a Vec<Vec<u8>>,
    },
}

/// What a connection through a proxy needs of an address.
pub fn socks_connect_parts<'a>(uri: &'a TransportUri) -> (r: Result<
    SocksConnectParts<'a>,
    TransportError,
>)
    ensures
        match *uri {
            TransportUri::Socks { proxy_host, proxy_port, target_host, target_port } => {
                &&& r matches Ok(
                    SocksConnectParts::Plain {
                        proxy_host: h,
                        proxy_port: p,
                        target_host: t,
                        target_port: q,
                    },
                )
                &&& h@ == proxy_host@
                &&& p == proxy_port
                &&& t@ == target_host@
                &&& q == target_port
            },
            TransportUri::SocksTls { proxy_host, proxy_port, target_host, target_port, sni, alpn } => {
                &&& r matches Ok(
                    SocksConnectParts::Tls {
                        proxy_host: h,
                        proxy_port: p,
                        target_host: t,
                        target_port: q,
                        sni: s,
                        alpn: a,
                    },
                )
                &&& h@ == proxy_host@
                &&& p == proxy_port
                &&& t@ == target_host@
                &&& q == target_port
                &&& sni matches Some(n) ==> s matches Some(m) && m@ == n@
                &&& sni is None ==> s is None
                &&& *a == alpn
            },
            _ => r matches Err(e) && e@ == Failure::Unsupported(
                "socks transport cannot handle `"@ + uri.scheme_text() + "`"@,
            ),
        },
{
    match uri {
        TransportUri::Socks { proxy_host, proxy_port, target_host, target_port } => Ok(
            SocksConnectParts::Plain {
                proxy_host: proxy_host.as_str(),
                proxy_port: *proxy_port,
                target_host: target_host.as_str(),
                target_port: *target_port,
            },
        ),
        TransportUri::SocksTls { proxy_host, proxy_port, target_host, target_port, sni, alpn } => Ok(
            SocksConnectParts::Tls {
                proxy_host: proxy_host.as_str(),
                proxy_port: *proxy_port,
                target_host: target_host.as_str(),
                target_port: *target_port,
                sni: match sni {
                    Some(s) => Some(s.as_str()),
                    None => None,
                },
                alpn,
            },
        ),
        _ => Err(
            TransportError::Unsupported(
                framed("socks transport cannot handle `", uri.scheme(), "`"),
            ),
        ),
    }
}

/// The failure of listening on an address that only leads outwards.
pub fn unsupported_listen_error(uri: &TransportUri) -> (e: TransportError)
    ensures
        e@ == Failure::Unsupported("listening is not supported for `"@ + uri.scheme_text() + "`"@),
{
    TransportError::Unsupported(framed("listening is not supported for `", uri.scheme(), "`"))
}

/// A proxy's address without the scheme in front of it.
pub open spec fn without_scheme(url: Seq<char>) -> Seq<char> {
    if starts_with(url, "socks5h://"@) {
        url.skip("socks5h://"@.len() as int)
    } else if starts_with(url, "socks5://"@) {
        url.skip("socks5://"@.len() as int)
    } else if starts_with(url, "socks://"@) {
        url.skip("socks://"@.len() as int)
    } else {
        url
    }
}

/// A text up to the first slash.
pub open spec fn before_slash(s: Seq<char>) -> Seq<char> {
    match first_of(s, '/') {
        Some(i) => s.take(i),
        None => s,
    }
}

/// The host and port of a proxy, or the complaint about its address.
pub open spec fn proxy_endpoint(url: Seq<char>) -> Result<(Seq<char>, u16), Seq<char>> {
    let endpoint = before_slash(without_scheme(url));
    let subject = "SOCKS proxy `"@ + url;
    match last_of(endpoint, ':') {
        None => Err(subject + "` must be `socks5://host:port`"@),
        Some(i) => {
            let host = endpoint.take(i);
            let port = endpoint.skip(i + 1);
            if host.len() == 0 {
                Err(subject + "` has an empty host"@)
            } else {
                match number_in(port, 65535) {
                    Err(_) => Err(subject + "` has an invalid port `"@ + port + "`"@),
                    Ok(n) => if n == 0 {
                        Err(subject + "` port must be non-zero"@)
                    } else {
                        Ok((host, n as u16))
                    },
                }
            }
        },
    }
}

/// A proxy's address without the scheme in front of it.
fn strip_scheme(chars: &Vec<char>) -> (v: Vec<char>)
    ensures
        v@ == without_scheme(chars@),
{
    let n: usize = chars.len();
    let from: usize = if has_prefix(chars.as_slice(), "socks5h://") {
        "socks5h://".unicode_len()
    } else if has_prefix(chars.as_slice(), "socks5://") {
        "socks5://".unicode_len()
    } else if has_prefix(chars.as_slice(), "socks://") {
        "socks://".unicode_len()
    } else {
        0
    };
    assert(chars@.subrange(from as int, n as int) =~= chars@.skip(from as int));
    assert(chars@.skip(0) =~= chars@);
    part_of(chars.as_slice(), from, n)
}

/// The host and port of a proxy: `socks5://host:port`, with `socks5h://`,
/// `socks://` or nothing in front as well, and with a path behind or not.
pub fn parse_socks_proxy_url(proxy_url: &str) -> (r: Result<(String, u16), TransportError>)
    ensures
        match proxy_endpoint(proxy_url@) {
            Ok((host, port)) => r matches Ok((h, p)) && h@ == host && p == port,
            Err(m) => r matches Err(e) && e@ == Failure::InvalidUri(m),
        },
{
    let chars: Vec<char> = chars_of(proxy_url);
    let rest: Vec<char> = strip_scheme(&chars);
    let end: usize = match find_char(rest.as_slice(), '/') {
        Some(i) => i,
        None => rest.len(),
    };
    let endpoint: Vec<char> = part_of(rest.as_slice(), 0, end);
    assert(rest@.subrange(0, end as int) =~= rest@.take(end as int));
    assert(rest@.take(rest@.len() as int) =~= rest@);
    assert(endpoint@ == before_slash(without_scheme(proxy_url@)));
    match rfind_char(endpoint.as_slice(), ':') {
        None => Err(
            TransportError::InvalidUri(
                framed("SOCKS proxy `", proxy_url, "` must be `socks5://host:port`"),
            ),
        ),
        Some(i) => {
            let host: Vec<char> = part_of(endpoint.as_slice(), 0, i);
            let port: Vec<char> = part_of(endpoint.as_slice(), i + 1, endpoint.len());
            assert(endpoint@.subrange(0, i as int) =~= endpoint@.take(i as int));
            assert(endpoint@.subrange(i + 1, endpoint@.len() as int) =~= endpoint@.skip(i + 1));
            if host.len() == 0 {
                return Err(
                    TransportError::InvalidUri(
                        framed("SOCKS proxy `", proxy_url, "` has an empty host"),
                    ),
                );
            }
            match parse_number(port.as_slice(), 65535) {
                Err(_) => {
                    let mut m: String = framed(
                        "SOCKS proxy `",
                        proxy_url,
                        "` has an invalid port `",
                    );
                    let t: String = text_of(port.as_slice());
                    m.append(t.as_str());
                    m.append("`");
                    Err(TransportError::InvalidUri(m))
                },
                Ok(n) => {
                    if n == 0 {
                        return Err(
                            TransportError::InvalidUri(
                                framed("SOCKS proxy `", proxy_url, "` port must be non-zero"),
                            ),
                        );
                    }
                    Ok((text_of(host.as_slice()), n as u16))
                },
            }
        },
    }
}

/// Where a character is last, when it does not occur behind that place.
proof fn lemma_last_of(s: Seq<char>, c: char, i: int)
    requires
        0 <= i < s.len(),
        s[i] == c,
        forall|j: int| i < j < s.len() ==> s[j] != c,
    ensures
        last_of(s, c) == Some(i),
    decreases s.len(),
{
    if i < s.len() - 1 {
        lemma_last_of(s.drop_last(), c, i);
    }
}

/// An address that ends in a digit, with a path behind or not, does not begin with a
/// scheme: the first slash of a scheme follows a colon.
proof fn lemma_no_scheme(endpoint: Seq<char>, path: Seq<char>, scheme: Seq<char>)
    requires
        endpoint.len() > 0,
        forall|j: int| 0 <= j < endpoint.len() ==> endpoint[j] != '/',
        endpoint[endpoint.len() - 1] != ':',
        is_path(path),
        scheme.len() >= 3,
        scheme[scheme.len() - 3] == ':',
        scheme[scheme.len() - 2] == '/',
        forall|j: int| 0 <= j < scheme.len() - 3 ==> scheme[j] != '/',
    ensures
        !starts_with(endpoint + path, scheme),
{
    let rest = endpoint + path;
    if starts_with(rest, scheme) {
        let n = scheme.len() as int;
        let e = endpoint.len() as int;
        assert forall|j: int| 0 <= j < n implies scheme[j] == rest[j] by {
            assert(rest.take(n)[j] == rest[j]);
        }
        assert(rest[n - 2] == '/' && rest[n - 3] == ':');
        if n - 2 < e {
            assert(endpoint[n - 2] == '/');
        } else if e < n - 2 {
            assert(rest[e] == path[0]);
            assert(scheme[e] == '/');
        }
        assert(rest[e - 1] == endpoint[e - 1]);
    }
}

/// What may stand in front of a proxy's address.
pub open spec fn is_proxy_scheme(prefix: Seq<char>) -> bool {
    prefix == "socks5h://"@ || prefix == "socks5://"@ || prefix == "socks://"@ || prefix == ""@
}

/// What may stand behind a proxy's address: nothing, or a path.
pub open spec fn is_path(path: Seq<char>) -> bool {
    path.len() == 0 || path[0] == '/'
}

/// The address that is written for a host and a port is read back as them, with any
/// of the schemes in front or none, and with a path behind or not.
pub proof fn proxy_url_round_trip(
    prefix: Seq<char>,
    host: Seq<char>,
    port: u16,
    path: Seq<char>,
)
    requires
        is_proxy_scheme(prefix),
        host.len() > 0,
        !host.contains('/'),
        port != 0,
        is_path(path),
    ensures
        proxy_endpoint(prefix + host + ":"@ + decimal_of(port as nat) + path) == Ok::<
            (Seq<char>, u16),
            Seq<char>,
        >((host, port)),
{
    reveal_strlit("socks5h://");
    reveal_strlit("socks5://");
    reveal_strlit("socks://");
    reveal_strlit("");
    reveal_strlit(":");
    let digits = decimal_of(port as nat);
    let endpoint = host + ":"@ + digits;
    let rest = endpoint + path;
    let url = prefix + host + ":"@ + digits + path;
    lemma_decimal_is_read(port as nat, 65535);
    assert(url =~= prefix + rest);
    assert forall|j: int| 0 <= j < endpoint.len() implies endpoint[j] != '/' by {
        if j < host.len() {
            assert(host[j] != '/');
        } else if j > host.len() {
            assert(endpoint[j] == digits[j - host.len() - 1]);
        }
    }
    assert(is_digit(digits[digits.len() - 1]));
    assert(endpoint[endpoint.len() - 1] == digits[digits.len() - 1]);
    assert(without_scheme(url) =~= rest) by {
        if prefix == ""@ {
            assert(url =~= rest);
            lemma_no_scheme(endpoint, path, "socks5h://"@);
            lemma_no_scheme(endpoint, path, "socks5://"@);
            lemma_no_scheme(endpoint, path, "socks://"@);
        } else {
            assert(url.take(prefix.len() as int) =~= prefix);
            assert(url.skip(prefix.len() as int) =~= rest);
            assert(url[5] == prefix[5] && url[6] == prefix[6]);
            if starts_with(url, "socks5h://"@) {
                assert("socks5h://"@[5] == url[5] && "socks5h://"@[6] == url[6]);
            }
            if starts_with(url, "socks5://"@) {
                assert("socks5://"@[5] == url[5] && "socks5://"@[6] == url[6]);
            }
        }
    }
    assert(before_slash(rest) == endpoint) by {
        lemma_first_of(rest, '/');
        if path.len() > 0 {
            assert(rest[endpoint.len() as int] == '/');
        }
        assert forall|j: int| 0 <= j < endpoint.len() implies rest[j] != '/' by {
            assert(rest[j] == endpoint[j]);
        }
        match first_of(rest, '/') {
            Some(i) => {
                assert(i == endpoint.len());
                assert(rest.take(i) =~= endpoint);
            },
            None => {
                assert(rest =~= endpoint);
            },
        }
    }
    let at = host.len() as int;
    assert(endpoint[at] == ':');
    assert forall|j: int| at < j < endpoint.len() implies endpoint[j] != ':' by {
        assert(endpoint[j] == digits[j - at - 1]);
    }
    lemma_last_of(endpoint, ':', at);
    assert(endpoint.take(at) =~= host);
    assert(endpoint.skip(at + 1) =~= digits);
}

/// A host and a port that are written as a proxy's address, with any of the schemes in
/// front or none and with a path behind or not, are read as them.
pub proof fn written_proxies_are_read(
    prefix: Seq<char>,
    host: Seq<char>,
    port: u16,
    path: Seq<char>,
    url: &str,
    r: Result<(String, u16), TransportError>,
)
    requires
        prefix == "socks5h://"@ || prefix == "socks5://"@ || prefix == "socks://"@ || prefix
            == ""@,
        host.len() > 0,
        !host.contains('/'),
        port > 0,
        path.len() == 0 || path[0] == '/',
        url@ == prefix + host + ":"@ + decimal_of(port as nat) + path,
        call_ensures(parse_socks_proxy_url, (url,), r),
    ensures
        r is Ok,
        (r->Ok_0).0@ == host,
        (r->Ok_0).1 == port,
{
    proxy_url_round_trip(prefix, host, port, path);
}

/// A proxy that is read has a host and a port that is not zero; what is refused is refused
/// as an address.
pub proof fn a_proxy_has_a_host_and_a_port(
    url: &str,
    r: Result<(String, u16), TransportError>,
)
    requires
        call_ensures(parse_socks_proxy_url, (url,), r),
    ensures
        r is Ok ==> (r->Ok_0).0@.len() > 0 && (r->Ok_0).1 > 0,
        r is Err ==> r->Err_0 is InvalidUri,
        !url@.contains(':') ==> r is Err,
{
    let endpoint = before_slash(without_scheme(url@));
    if !url@.contains(':') {
        lemma_first_of(without_scheme(url@), '/');
        lemma_no_colon(endpoint);
        assert forall|i: int| 0 <= i < endpoint.len() implies #[trigger] endpoint[i] != ':' by {
            assert(without_scheme(url@)[i] == endpoint[i]);
            let k = url@.len() - without_scheme(url@).len();
            assert(url@[i + k] == endpoint[i]);
            assert(url@.contains(url@[i + k]));
        }
    }
    if r is Ok {
        lemma_port_digits(endpoint);
    }
}

proof fn lemma_no_colon(s: Seq<char>)
    ensures
        (forall|i: int| 0 <= i < s.len() ==> #[trigger] s[i] != ':') ==> last_of(s, ':') is None,
    decreases s.len(),
{
    if s.len() > 0 {
        lemma_no_colon(s.drop_last());
        if forall|i: int| 0 <= i < s.len() ==> #[trigger] s[i] != ':' {
            assert(s.last() == s[s.len() - 1]);
            assert forall|i: int| 0 <= i < s.drop_last().len() implies #[trigger] s.drop_last()[i]
                != ':' by {
                assert(s[i] != ':');
            }
        }
    }
}

proof fn lemma_port_digits(s: Seq<char>)
    ensures
        last_of(s, ':') is Some ==> 0 <= last_of(s, ':')->0 < s.len(),
    decreases s.len(),
{
    if s.len() > 0 && s.last() != ':' {
        lemma_port_digits(s.drop_last());
    }
}

/// Only addresses behind a proxy are connected to through one, with the proxy and the
/// target that they name; none can be listened on.
pub proof fn a_proxy_is_used_as_named(
    u: &TransportUri,
    r: Result<SocksConnectParts, TransportError>,
    e: TransportError,
)
    requires
        call_ensures(socks_connect_parts, (u,), r),
        call_ensures(unsupported_listen_error, (u,), e),
    ensures
        r is Ok <==> *u is Socks || *u is SocksTls,
        *u is Socks ==> {
            &&& r->Ok_0 is Plain
            &&& r->Ok_0->Plain_proxy_host@ == u->Socks_proxy_host@
            &&& r->Ok_0->Plain_proxy_port == u->Socks_proxy_port
            &&& r->Ok_0->Plain_target_host@ == u->Socks_target_host@
            &&& r->Ok_0->Plain_target_port == u->Socks_target_port
        },
        *u is SocksTls ==> {
            &&& r->Ok_0 is Tls
            &&& r->Ok_0->Tls_proxy_host@ == u->SocksTls_proxy_host@
            &&& r->Ok_0->Tls_proxy_port == u->SocksTls_proxy_port
            &&& r->Ok_0->Tls_target_host@ == u->SocksTls_target_host@
            &&& r->Ok_0->Tls_target_port == u->SocksTls_target_port
            &&& r->Ok_0->Tls_sni is Some == u->SocksTls_sni is Some
            &&& u->SocksTls_sni is Some ==> r->Ok_0->Tls_sni->0@ == u->SocksTls_sni->0@
            &&& *r->Ok_0->Tls_alpn == u->SocksTls_alpn
        },
        r is Err ==> r->Err_0 is Unsupported,
        e is Unsupported,
{
}

} // verus!
