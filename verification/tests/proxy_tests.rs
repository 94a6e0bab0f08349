use ret::proxy::{plan_proxy, route_request, target_text, Header, ProxyAction, RequestHead};
use ret::tunnel::{get_server_config, shadowsocks_target, try_get_server_config};
use shadowsocks::config::ServerAddr;
use shadowsocks::relay::Address;

fn target(a: &ProxyAction) -> Option<&[u8]> {
    match a {
        ProxyAction::Ignore => None,
        ProxyAction::Tunnel(t) | ProxyAction::Forward(t) => Some(t.as_slice()),
    }
}

#[test]
fn connect_request_is_tunnelled() {
    let req = b"CONNECT example.com:443 HTTP/1.1\r\nHost: example.com:443\r\n\r\n";
    let a = route_request(req).unwrap();
    assert!(matches!(a, ProxyAction::Tunnel(_)));
    assert_eq!(target(&a), Some(&b"example.com:443"[..]));
}

#[test]
fn other_requests_are_forwarded() {
    let req = b"GET http://a.test/ HTTP/1.1\r\nUser-Agent: t\r\nHost: a.test:80\r\n\r\nbody";
    let a = route_request(req).unwrap();
    assert!(matches!(a, ProxyAction::Forward(_)));
    assert_eq!(target(&a), Some(&b"a.test:80"[..]));
}

#[test]
fn method_comparison_is_case_sensitive() {
    let req = b"connect x:1 HTTP/1.1\r\nHost: x:1\r\n\r\n";
    assert!(matches!(route_request(req), Some(ProxyAction::Forward(_))));
}

#[test]
fn incomplete_or_invalid_heads_are_ignored() {
    assert!(matches!(route_request(b"GET / HTTP/1.1\r\nHost: a"), Some(ProxyAction::Ignore)));
    assert!(matches!(route_request(b""), Some(ProxyAction::Ignore)));
    assert!(matches!(route_request(b"\x01\x02 / HTTP/1.1\r\n\r\n"), Some(ProxyAction::Ignore)));
}

#[test]
fn head_without_host_gets_no_action() {
    assert!(route_request(b"GET / HTTP/1.1\r\nAccept: */*\r\n\r\n").is_none());
    assert!(route_request(b"GET / HTTP/1.1\r\nhost: a:1\r\n\r\n").is_none());
}

#[test]
fn first_host_header_wins() {
    let req = b"GET / HTTP/1.1\r\nHost: first:1\r\nHost: second:2\r\n\r\n";
    let a = route_request(req).unwrap();
    assert_eq!(target(&a), Some(&b"first:1"[..]));
}

#[test]
fn plan_of_a_head() {
    let head = RequestHead {
        method: Some(b"CONNECT".to_vec()),
        headers: vec![
            Header { name: b"X".to_vec(), value: b"y".to_vec() },
            Header { name: b"Host".to_vec(), value: b"t:9".to_vec() },
        ],
    };
    let a = plan_proxy(&head);
    assert!(matches!(a, ProxyAction::Tunnel(_)));
    assert_eq!(target(&a), Some(&b"t:9"[..]));
    let head = RequestHead {
        method: Some(b"POST".to_vec()),
        headers: vec![Header { name: b"Host".to_vec(), value: b"u:1".to_vec() }],
    };
    let a = plan_proxy(&head);
    assert!(matches!(a, ProxyAction::Forward(_)));
    assert_eq!(target(&a), Some(&b"u:1"[..]));
}

#[test]
fn known_ciphers_give_a_configuration() {
    let c = get_server_config("127.0.0.1", 8488, "123456", "aes-128-gcm");
    assert_eq!(c.method(), shadowsocks_crypto::CipherKind::AES_128_GCM);
    assert_eq!(c.addr().port(), 8488);
    assert_eq!(c.addr().host(), "127.0.0.1");
    assert_eq!(c.password(), "123456");
    assert!(try_get_server_config("h", 1, "p", "AES-256-GCM").is_some());
    assert!(try_get_server_config("h", 1, "p", "chacha20-ietf-poly1305").is_some());
    assert!(try_get_server_config("h", 1, "", "none").is_some());
    assert!(try_get_server_config("h", 1, "", "Plain").is_some());
}

#[test]
fn unknown_ciphers_give_none() {
    assert!(try_get_server_config("h", 1, "p", "rot13").is_none());
    assert!(try_get_server_config("h", 1, "p", "").is_none());
    assert!(try_get_server_config("h", 1, "p", "aes-128-gcm ").is_none());
}

#[test]
fn configuration_keeps_address_password_and_method() {
    let c = get_server_config("127.0.0.1", 8488, "123456", "aes-128-gcm");
    assert_eq!(c.addr(), &ServerAddr::DomainName("127.0.0.1".to_string(), 8488));
    assert_eq!(c.password(), "123456");
    assert_eq!(c.method().to_string(), "aes-128-gcm");
    let c = try_get_server_config("h", 2, "pw", "PLAIN").unwrap();
    assert_eq!(c.addr(), &ServerAddr::DomainName("h".to_string(), 2));
    assert_eq!(c.password(), "pw");
    assert_eq!(c.method().to_string(), "none");
    let c = try_get_server_config("h", 2, "pw", "ChaCha20-IETF-Poly1305").unwrap();
    assert_eq!(c.method().to_string(), "chacha20-ietf-poly1305");
}

#[test]
fn shadowsocks_targets() {
    match shadowsocks_target(b"example.com:443") {
        Some(Address::DomainNameAddress(n, p)) => {
            assert_eq!(n, "example.com");
            assert_eq!(p, 443);
        }
        other => panic!("unexpected: {:?}", other),
    }
    match shadowsocks_target(b"example.com") {
        Some(Address::DomainNameAddress(n, p)) => {
            assert_eq!(n, "example.com");
            assert_eq!(p, 80);
        }
        other => panic!("unexpected: {:?}", other),
    }
    match shadowsocks_target(b"a:1:x") {
        Some(Address::DomainNameAddress(n, p)) => {
            assert_eq!(n, "a");
            assert_eq!(p, 1);
        }
        other => panic!("unexpected: {:?}", other),
    }
    assert!(matches!(shadowsocks_target(b"127.0.0.1:8080"), Some(Address::SocketAddress(_))));
    assert!(matches!(shadowsocks_target(b"[::1]:22"), Some(Address::SocketAddress(_))));
    assert!(shadowsocks_target(b"example.com:http").is_none());
    assert!(shadowsocks_target(b"\xff\xfe:1").is_none());
}

#[test]
fn target_text_checks_utf8() {
    assert_eq!(target_text(b"a.test:80"), Some("a.test:80"));
    assert_eq!(target_text("h\u{e9}:1".as_bytes()), Some("h\u{e9}:1"));
    assert_eq!(target_text(b"\xc3\x28"), None);
}
