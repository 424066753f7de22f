use veil::transport::error::TransportError;
use veil::transport::socks::{
    parse_socks_proxy_url, socks_connect_parts, unsupported_listen_error, SocksConnectParts,
};
use veil::transport::uri::TransportUri;

#[test]
fn parse_socks_proxy_url_accepts_schemes_and_bare() {
    assert_eq!(
        parse_socks_proxy_url("socks5://127.0.0.1:9050").unwrap(),
        ("127.0.0.1".to_owned(), 9050)
    );
    assert_eq!(
        parse_socks_proxy_url("socks5h://localhost:9150").unwrap(),
        ("localhost".to_owned(), 9150)
    );
    assert_eq!(
        parse_socks_proxy_url("socks://10.0.0.1:1080").unwrap(),
        ("10.0.0.1".to_owned(), 1080)
    );
    assert_eq!(
        parse_socks_proxy_url("127.0.0.1:9050").unwrap(),
        ("127.0.0.1".to_owned(), 9050)
    );
}

#[test]
fn parse_socks_proxy_url_rejects_malformed() {
    assert!(matches!(
        parse_socks_proxy_url("socks5://127.0.0.1"),
        Err(TransportError::InvalidUri(_))
    ));
    assert!(matches!(
        parse_socks_proxy_url("socks5://:9050"),
        Err(TransportError::InvalidUri(_))
    ));
    assert!(matches!(
        parse_socks_proxy_url("socks5://127.0.0.1:tor"),
        Err(TransportError::InvalidUri(_))
    ));
    assert!(matches!(
        parse_socks_proxy_url("socks5://127.0.0.1:70000"),
        Err(TransportError::InvalidUri(_))
    ));
}

fn complaint(url: &str) -> String {
    match parse_socks_proxy_url(url) {
        Ok(_) => panic!("{url} was taken"),
        Err(e) => e.message(),
    }
}

#[test]
fn every_complaint_names_the_url() {
    assert_eq!(
        complaint("socks5://host"),
        "invalid transport URI: SOCKS proxy `socks5://host` must be `socks5://host:port`"
    );
    assert_eq!(
        complaint("socks5://:1"),
        "invalid transport URI: SOCKS proxy `socks5://:1` has an empty host"
    );
    assert_eq!(
        complaint("h:tor"),
        "invalid transport URI: SOCKS proxy `h:tor` has an invalid port `tor`"
    );
    assert_eq!(
        complaint("h:0"),
        "invalid transport URI: SOCKS proxy `h:0` port must be non-zero"
    );
}

#[test]
fn a_path_behind_the_port_does_not_count() {
    assert_eq!(
        parse_socks_proxy_url("socks5://host:9050/target:1").unwrap(),
        ("host".to_owned(), 9050)
    );
    assert_eq!(parse_socks_proxy_url("a:b:7").unwrap(), ("a:b".to_owned(), 7));
}

#[test]
fn the_address_decides_about_tls_behind_the_proxy() {
    let plain = TransportUri::Socks {
        proxy_host: "p".to_string(),
        proxy_port: 1,
        target_host: "t".to_string(),
        target_port: 2,
    };
    assert!(matches!(
        socks_connect_parts(&plain),
        Ok(SocksConnectParts::Plain { proxy_host: "p", proxy_port: 1, target_host: "t", target_port: 2 })
    ));
    let tls = TransportUri::SocksTls {
        proxy_host: "p".to_string(),
        proxy_port: 1,
        target_host: "t".to_string(),
        target_port: 2,
        sni: Some("s".to_string()),
        alpn: vec![b"h2".to_vec()],
    };
    match socks_connect_parts(&tls) {
        Ok(SocksConnectParts::Tls { sni, alpn, .. }) => {
            assert_eq!(sni, Some("s"));
            assert_eq!(*alpn, vec![b"h2".to_vec()]);
        }
        _ => panic!("expected the parts for TLS"),
    }
    let tcp = TransportUri::Tcp { host: "h".to_string(), port: 1 };
    match socks_connect_parts(&tcp) {
        Ok(_) => panic!("tcp was taken"),
        Err(e) => assert_eq!(
            e.message(),
            "unsupported transport operation: socks transport cannot handle `tcp`"
        ),
    }
    assert_eq!(
        unsupported_listen_error(&plain).message(),
        "unsupported transport operation: listening is not supported for `socks`"
    );
}

#[test]
fn every_scheme_may_be_followed_by_a_path() {
    for scheme in ["socks5h://", "socks5://", "socks://", ""] {
        for path in ["", "/", "/a/b:1"] {
            assert_eq!(
                parse_socks_proxy_url(&format!("{scheme}socks5:1080{path}")).unwrap(),
                ("socks5".to_owned(), 1080)
            );
        }
    }
}
