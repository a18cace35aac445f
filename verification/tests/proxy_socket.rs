use proxy_transport::descriptor::{Proxy, ProxyKind};
use proxy_transport::host::{IpAddress, ProxyHost};
use proxy_transport::proxy_socket::{
    begin_direct, begin_http, begin_socks5, Action, ConnectionTarget, Event, FailureKind, Negotiator, SocketConnectError,
    Stage, TransportPath, DEFAULT_PORT,
};

fn target() -> ConnectionTarget {
    ConnectionTarget::checked("example.com".to_string(), 443).unwrap()
}

fn through(kind: ProxyKind, addr: &str, port: u16, creds: Option<(&str, &str)>) -> Proxy {
    Proxy {
        kind,
        addr: addr.to_string(),
        port,
        creds: creds.map(|(user, pass)| (user.to_string(), pass.to_string())),
    }
}

fn failed(error: SocketConnectError) -> Action {
    Action::Failed { error }
}

fn tls() -> Action {
    Action::TlsHandshake { server_name: "example.com".to_string() }
}

#[test]
fn direct_connection_is_layered_in_order() {
    let (mut n, first) = Negotiator::start(target(), None);
    assert_eq!(first, Action::ConnectTarget { host: "example.com".to_string(), port: 443 });
    assert_eq!(n.stage(), Stage::ConnectingTarget);
    assert_eq!(n.step(Event::Completed), tls());
    assert_eq!(n.stage(), Stage::TlsHandshake);
    assert_eq!(n.step(Event::Completed), Action::FramingHandshake);
    assert_eq!(n.stage(), Stage::FramingHandshake);
    assert_eq!(n.step(Event::Completed), Action::Established { path: TransportPath::Direct });
    assert_eq!(n.stage(), Stage::Established);
    assert_eq!(n.path(), TransportPath::Direct);
}

#[test]
fn socks5_hands_on_the_credentials() {
    let p = through(ProxyKind::Socks5, "10.0.0.1", 1080, Some(("alice", "secret")));
    let (mut n, first) = Negotiator::start(target(), Some(p));
    assert_eq!(
        first,
        Action::Socks5Connect {
            proxy_address: "10.0.0.1:1080".to_string(),
            target_domain: "example.com".to_string(),
            target_port: 443,
            credentials: Some(("alice".to_string(), "secret".to_string())),
        }
    );
    assert_eq!(n.stage(), Stage::Socks5Handshake);
    assert_eq!(n.step(Event::Completed), tls());
    assert_eq!(n.step(Event::Completed), Action::FramingHandshake);
    assert_eq!(n.step(Event::Completed), Action::Established { path: TransportPath::Socks5 });
}

#[test]
fn socks5_without_credentials_asks_for_none() {
    let p = through(ProxyKind::Socks5, "socks.example", 9, None);
    let (n, first) = Negotiator::start(target(), Some(p));
    assert_eq!(
        first,
        Action::Socks5Connect {
            proxy_address: "socks.example:9".to_string(),
            target_domain: "example.com".to_string(),
            target_port: 443,
            credentials: None,
        }
    );
    assert_eq!(n.path(), TransportPath::Socks5);
}

#[test]
fn http_proxy_by_name_is_resolved_first() {
    let p = through(ProxyKind::Http, "http://proxy.example", 8080, Some(("alice", "secret")));
    let (mut n, first) = Negotiator::start(target(), Some(p));
    assert_eq!(first, Action::ResolveProxy { host: "proxy.example".to_string(), port: 8080 });
    assert_eq!(n.stage(), Stage::ResolvingProxy);
    let found = IpAddress::V4([10, 0, 0, 7]);
    assert_eq!(
        n.step(Event::Resolved(Some(found))),
        Action::ConnectProxy { address: found, port: 8080 }
    );
    assert_eq!(n.stage(), Stage::ConnectingProxy);
    assert_eq!(
        n.step(Event::Completed),
        Action::HttpConnect {
            target_domain: "example.com".to_string(),
            target_port: 443,
            credentials: Some(("alice".to_string(), "secret".to_string())),
        }
    );
    assert_eq!(n.stage(), Stage::HttpConnect);
    assert_eq!(n.step(Event::Completed), tls());
    assert_eq!(n.step(Event::Completed), Action::FramingHandshake);
    assert_eq!(n.step(Event::Completed), Action::Established { path: TransportPath::Http });
    assert_eq!(n.path(), TransportPath::Http);
}

#[test]
fn http_proxy_name_is_read_as_the_url_parser_reads_it() {
    let p = through(ProxyKind::Http, "HTTP://Proxy.EXAMPLE:3128/path?x=1", 8080, None);
    let (_, first) = Negotiator::start(target(), Some(p));
    assert_eq!(first, Action::ResolveProxy { host: "proxy.example".to_string(), port: 8080 });
}

#[test]
fn http_proxy_by_ipv4_address_is_connected_at_once() {
    let p = through(ProxyKind::Http, "http://127.0.0.1", 3128, None);
    let (mut n, first) = Negotiator::start(target(), Some(p));
    assert_eq!(
        first,
        Action::ConnectProxy { address: IpAddress::V4([127, 0, 0, 1]), port: 3128 }
    );
    assert_eq!(n.stage(), Stage::ConnectingProxy);
    assert_eq!(
        n.step(Event::Completed),
        Action::HttpConnect {
            target_domain: "example.com".to_string(),
            target_port: 443,
            credentials: None,
        }
    );
}

#[test]
fn http_proxy_by_ipv6_address_is_connected_at_once() {
    let p = through(ProxyKind::Http, "http://[2001:db8::1]", 3128, None);
    let (_, first) = Negotiator::start(target(), Some(p));
    assert_eq!(
        first,
        Action::ConnectProxy {
            address: IpAddress::V6([0x2001, 0xdb8, 0, 0, 0, 0, 0, 1]),
            port: 3128
        }
    );
}

#[test]
fn http_proxy_address_must_be_a_url() {
    let p = through(ProxyKind::Http, "proxy.example", 8080, None);
    let (mut n, first) = Negotiator::start(target(), Some(p));
    assert_eq!(
        first,
        failed(SocketConnectError::UrlParse { source: url::ParseError::RelativeUrlWithoutBase })
    );
    assert_eq!(n.stage(), Stage::Failed);
    assert!(!n.expects(&Event::Completed));
    assert!(!n.expects(&Event::Failed));
    let _ = &mut n;
    let p = through(ProxyKind::Http, "http://", 8080, None);
    let (_, first) = Negotiator::start(target(), Some(p));
    assert_eq!(first, failed(SocketConnectError::UrlParse { source: url::ParseError::EmptyHost }));
}

#[test]
fn http_proxy_address_must_name_a_host() {
    for addr in ["data:text/plain,hello", "mailto:someone@example.com", "unix:/run/proxy.socket"] {
        let p = through(ProxyKind::Http, addr, 8080, None);
        let (n, first) = Negotiator::start(target(), Some(p));
        assert_eq!(first, failed(SocketConnectError::HostIsNotPresent));
        assert_eq!(n.stage(), Stage::Failed);
    }
}

#[test]
fn unsupported_kinds_are_reported() {
    for kind in [ProxyKind::Socks4, ProxyKind::Https] {
        for creds in [None, Some(("u", "p"))] {
            let p = through(kind, "10.0.0.1", 1080, creds);
            let (n, first) = Negotiator::start(target(), Some(p));
            assert_eq!(first, failed(SocketConnectError::UnsupportedProxyKind));
            assert_eq!(n.stage(), Stage::Failed);
            assert!(!n.expects(&Event::Completed));
            assert!(!n.expects(&Event::Resolved(None)));
            assert!(!n.expects(&Event::Failed));
        }
    }
}

#[test]
fn each_layer_fails_in_its_own_way() {
    let (mut n, _) = Negotiator::start(target(), None);
    assert_eq!(n.step(Event::Failed), failed(SocketConnectError::Tokio));
    assert_eq!(n.stage(), Stage::Failed);

    let (mut n, _) = Negotiator::start(target(), None);
    n.step(Event::Completed);
    assert_eq!(n.step(Event::Failed), failed(SocketConnectError::RustlsError));
    assert_eq!(n.stage(), Stage::Failed);

    let (mut n, _) = Negotiator::start(target(), None);
    n.step(Event::Completed);
    n.step(Event::Completed);
    assert_eq!(n.step(Event::Failed), failed(SocketConnectError::Tungstenite));

    let p = through(ProxyKind::Socks5, "10.0.0.1", 1080, None);
    let (mut n, _) = Negotiator::start(target(), Some(p));
    assert_eq!(n.step(Event::Failed), failed(SocketConnectError::Socks5Error));

    let p = through(ProxyKind::Http, "http://proxy.example", 8080, None);
    let (mut n, _) = Negotiator::start(target(), Some(p.clone()));
    assert_eq!(n.step(Event::Failed), failed(SocketConnectError::HostIsNotPresent));

    let (mut n, _) = Negotiator::start(target(), Some(p.clone()));
    assert_eq!(n.step(Event::Resolved(None)), failed(SocketConnectError::HostIsNotPresent));
    assert_eq!(n.stage(), Stage::Failed);

    let (mut n, _) = Negotiator::start(target(), Some(p.clone()));
    n.step(Event::Resolved(Some(IpAddress::V4([10, 0, 0, 7]))));
    assert_eq!(n.step(Event::Failed), failed(SocketConnectError::Tokio));

    let (mut n, _) = Negotiator::start(target(), Some(p));
    n.step(Event::Resolved(Some(IpAddress::V4([10, 0, 0, 7]))));
    n.step(Event::Completed);
    assert_eq!(n.step(Event::Failed), failed(SocketConnectError::AsyncHttp));
    assert_eq!(n.stage(), Stage::Failed);
}

#[test]
fn events_are_expected_by_stage() {
    let (mut n, _) = Negotiator::start(target(), None);
    assert!(n.expects(&Event::Completed));
    assert!(n.expects(&Event::Failed));
    assert!(!n.expects(&Event::Resolved(None)));
    n.step(Event::Completed);
    n.step(Event::Completed);
    n.step(Event::Completed);
    assert!(!n.expects(&Event::Completed));
    assert!(!n.expects(&Event::Failed));

    let p = through(ProxyKind::Http, "http://proxy.example", 8080, None);
    let (n, _) = Negotiator::start(target(), Some(p));
    assert!(!n.expects(&Event::Completed));
    assert!(n.expects(&Event::Failed));
    assert!(n.expects(&Event::Resolved(None)));
    assert!(n.expects(&Event::Resolved(Some(IpAddress::V4([1, 2, 3, 4])))));
}

#[test]
fn tls_is_for_the_target_not_the_proxy() {
    let p = through(ProxyKind::Socks5, "proxy.example", 1080, None);
    let (mut n, _) = Negotiator::start(target(), Some(p));
    assert_eq!(n.step(Event::Completed), tls());
    assert_eq!(n.target().domain(), "example.com");
    assert_eq!(n.target().port(), 443);
    assert_eq!(n.proxy().as_ref().unwrap().addr, "proxy.example");
}

#[test]
fn target_must_be_a_server_name() {
    assert!(ConnectionTarget::checked("example.com".to_string(), 443).is_some());
    assert!(ConnectionTarget::checked("127.0.0.1".to_string(), 443).is_some());
    assert!(ConnectionTarget::checked("::1".to_string(), 8443).is_some());
    assert!(ConnectionTarget::checked("".to_string(), 443).is_none());
    assert!(ConnectionTarget::checked("not a name".to_string(), 443).is_none());
    assert!(ConnectionTarget::checked("exam!ple.com".to_string(), 443).is_none());
    let t = ConnectionTarget::checked("Example.COM".to_string(), 1).unwrap();
    assert_eq!(t.domain(), "Example.COM");
    assert_eq!(t.port(), 1);
}

#[test]
fn target_is_taken_from_a_uri() {
    let t = ConnectionTarget::for_uri("example.com", None).unwrap();
    assert_eq!((t.domain(), t.port()), ("example.com", 443));
    let t = ConnectionTarget::for_uri("example.com", Some(8443)).unwrap();
    assert_eq!((t.domain(), t.port()), ("example.com", 8443));
    let t = ConnectionTarget::for_uri("[::1]", Some(9)).unwrap();
    assert_eq!((t.domain(), t.port()), ("::1", 9));
    let t = ConnectionTarget::for_uri("[2001:db8::1]", None).unwrap();
    assert_eq!((t.domain(), t.port()), ("2001:db8::1", 443));
    assert!(ConnectionTarget::for_uri("[example.com]", None).is_some());
    assert!(ConnectionTarget::for_uri("[]", None).is_none());
    assert!(ConnectionTarget::for_uri("[", None).is_none());
    assert!(ConnectionTarget::for_uri("[::1", None).is_none());
    assert!(ConnectionTarget::for_uri("", Some(1)).is_none());
    assert_eq!(DEFAULT_PORT, 443);
}

#[test]
fn each_tunnel_begins_in_its_own_way() {
    assert_eq!(
        begin_direct(&target()),
        (
            Stage::ConnectingTarget,
            Action::ConnectTarget { host: "example.com".to_string(), port: 443 }
        )
    );
    let p = through(ProxyKind::Socks5, "::1", 65535, Some(("", "")));
    assert_eq!(
        begin_socks5(&p, &target()),
        (
            Stage::Socks5Handshake,
            Action::Socks5Connect {
                proxy_address: "::1:65535".to_string(),
                target_domain: "example.com".to_string(),
                target_port: 443,
                credentials: Some(("".to_string(), "".to_string())),
            }
        )
    );
}

#[test]
fn http_tunnel_begins_by_what_was_read() {
    assert_eq!(
        begin_http(Err(url::ParseError::InvalidPort), 1),
        (
            Stage::Failed,
            failed(SocketConnectError::UrlParse { source: url::ParseError::InvalidPort })
        )
    );
    assert_eq!(begin_http(Ok(None), 1), (Stage::Failed, failed(SocketConnectError::HostIsNotPresent)));
    assert_eq!(
        begin_http(Ok(Some(ProxyHost::Domain("p.example".to_string()))), 3128),
        (Stage::ResolvingProxy, Action::ResolveProxy { host: "p.example".to_string(), port: 3128 })
    );
    let address = IpAddress::V6([0, 0, 0, 0, 0, 0, 0, 1]);
    assert_eq!(
        begin_http(Ok(Some(ProxyHost::Ip(address))), 3128),
        (Stage::ConnectingProxy, Action::ConnectProxy { address, port: 3128 })
    );
}

#[test]
fn failures_have_kinds_and_messages() {
    let error = SocketConnectError::UrlParse { source: url::ParseError::EmptyHost };
    assert_eq!(error.kind(), FailureKind::UrlParse);
    assert_eq!(error.to_string(), "proxy address parse failed");
    assert_eq!(SocketConnectError::Socks5Error.to_string(), "fast_socks5 stream error");
    assert_eq!(SocketConnectError::RustlsError.to_string(), "tokio-rustls connection error");
    assert_eq!(SocketConnectError::Tungstenite.to_string(), "async-tungstenite failed connecting");
    assert_eq!(SocketConnectError::AsyncHttp.to_string(), "http proxy failed connecting");
    assert_eq!(SocketConnectError::Tokio.to_string(), "tokio failed connecting tunnel");
    assert_eq!(SocketConnectError::HostIsNotPresent.to_string(), "proxy host is not present");
    assert_eq!(FailureKind::UnsupportedProxyKind.message(), "proxy kind is not supported");
    assert_eq!(SocketConnectError::UnsupportedProxyKind.kind(), FailureKind::UnsupportedProxyKind);
}
