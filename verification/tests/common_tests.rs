use ret::cli::Cli;
use ret::common::{parse_url, UrlProto};
use ret::error::RetError;
use std::num::IntErrorKind;

#[test]
fn test_parse_url() {
    let u = parse_url("http://127.0.0.1:8080").unwrap();
    println!("u:{:?}", u);
}

#[test]
fn parse_url_splits_scheme_host_and_port() {
    let u = parse_url("http://127.0.0.1:8080").unwrap();
    assert_eq!(u.scheme, "http");
    assert_eq!(u.host, "127.0.0.1");
    assert_eq!(u.port, 8080);
}

#[test]
fn parse_url_empty_host() {
    let u = parse_url("http://:8080").unwrap();
    assert_eq!(u.scheme, "http");
    assert_eq!(u.host, "");
    assert_eq!(u.port, 8080);
}

#[test]
fn parse_url_shadowsocks_address() {
    let u = parse_url("ss://192.168.1.1:8081").unwrap();
    assert_eq!(u.scheme, "ss");
    assert_eq!(u.host, "192.168.1.1");
    assert_eq!(u.port, 8081);
}

#[test]
fn parse_url_bare_port_is_an_http_address() {
    let u = parse_url(":443").unwrap();
    assert_eq!(u.scheme, "http");
    assert_eq!(u.host, "");
    assert_eq!(u.port, 443);
    assert_eq!(u.path, "");
    let u = parse_url("localhost:8080").unwrap();
    assert_eq!(u.scheme, "http");
    assert_eq!(u.host, "localhost");
    assert_eq!(u.port, 8080);
}

#[test]
fn parse_url_forwarding_path() {
    let u = parse_url("tcp://:8080/192.168.1.1:80").unwrap();
    assert_eq!(u.scheme, "tcp");
    assert_eq!(u.host, "");
    assert_eq!(u.port, 8080);
    assert_eq!(u.path, "/192.168.1.1:80");
}

#[test]
fn parse_url_without_scheme_or_colon_is_refused() {
    match parse_url("localhost") {
        Err(RetError::AddrParseError(s)) => assert_eq!(s, "localhost"),
        other => panic!("unexpected: {:?}", other),
    }
    match parse_url("") {
        Err(RetError::AddrParseError(s)) => assert_eq!(s, ""),
        other => panic!("unexpected: {:?}", other),
    }
    assert!(matches!(parse_url("http:/a:1"), Err(RetError::ParseIntError(_))));
}

fn kind_of(r: Result<UrlProto, RetError>) -> IntErrorKind {
    match r {
        Err(RetError::ParseIntError(e)) => e.kind().clone(),
        other => panic!("unexpected: {:?}", other),
    }
}

#[test]
fn parse_url_port_error_kinds() {
    assert_eq!(kind_of(parse_url("http://127.0.0.1")), IntErrorKind::Empty);
    assert_eq!(kind_of(parse_url("http://h:")), IntErrorKind::Empty);
    assert_eq!(kind_of(parse_url("http://h:65536")), IntErrorKind::PosOverflow);
    assert_eq!(kind_of(parse_url("http://h:-1")), IntErrorKind::InvalidDigit);
    assert_eq!(kind_of(parse_url("http://h:+")), IntErrorKind::InvalidDigit);
    assert_eq!(kind_of(parse_url("http://h:8a")), IntErrorKind::InvalidDigit);
    assert_eq!(kind_of(parse_url("http://h:99999x")), IntErrorKind::PosOverflow);
}

#[test]
fn parse_url_port_must_be_a_u16() {
    assert!(matches!(parse_url("tcp://:80x/192.168.1.1:80"), Err(RetError::ParseIntError(_))));
    assert!(matches!(parse_url("http://host"), Err(RetError::ParseIntError(_))));
    assert!(matches!(parse_url("http://host:"), Err(RetError::ParseIntError(_))));
    assert!(matches!(parse_url("http://host:65536"), Err(RetError::ParseIntError(_))));
    assert!(matches!(parse_url("http://host:-1"), Err(RetError::ParseIntError(_))));
    assert!(matches!(parse_url("http://host:+"), Err(RetError::ParseIntError(_))));
    assert!(matches!(parse_url("http://host: 80"), Err(RetError::ParseIntError(_))));
}

#[test]
fn parse_url_port_edge_values() {
    assert_eq!(parse_url("http://h:0").unwrap().port, 0);
    assert_eq!(parse_url("http://h:65535").unwrap().port, 65535);
    assert_eq!(parse_url("http://h:+80").unwrap().port, 80);
    assert_eq!(parse_url("http://h:0080").unwrap().port, 80);
    assert_eq!(parse_url("http://h:080").unwrap().port, 80);
}

#[test]
fn parse_url_first_separators_win() {
    let u = parse_url("a://b://c:1");
    assert!(matches!(u, Err(RetError::ParseIntError(_))));
    let u = parse_url("x://::7").unwrap_err();
    assert!(matches!(u, RetError::ParseIntError(_)));
    let u = parse_url("x:///p:7").unwrap();
    assert_eq!(u.scheme, "x");
    assert_eq!(u.host, "/p");
    assert_eq!(u.port, 7);
    assert_eq!(u.path, "");
}

#[test]
fn parse_url_keeps_non_ascii_text() {
    let u = parse_url("sch\u{e9}ma://h\u{f6}st:12").unwrap();
    assert_eq!(u.scheme, "sch\u{e9}ma");
    assert_eq!(u.host, "h\u{f6}st");
    assert_eq!(u.port, 12);
}

#[test]
fn target_host_is_host_colon_decimal_port() {
    let u = UrlProto { scheme: "http".to_string(), host: "127.0.0.1".to_string(), port: 8080, path: String::new() };
    assert_eq!(u.get_target_host(), "127.0.0.1:8080");
    let u = UrlProto { scheme: "http".to_string(), host: String::new(), port: 0, path: String::new() };
    assert_eq!(u.get_target_host(), ":0");
    let u = UrlProto { scheme: "ss".to_string(), host: "a".to_string(), port: 65535, path: "/x".to_string() };
    assert_eq!(u.get_target_host(), "a:65535");
    let u = UrlProto { scheme: "ss".to_string(), host: "b".to_string(), port: 10, path: String::new() };
    assert_eq!(u.get_target_host(), "b:10");
}

#[test]
fn address_round_trip() {
    let s = "ss://example.com:443";
    let u = parse_url(s).unwrap();
    assert_eq!(u.get_target_host(), "example.com:443");
    let s = "http://10.0.0.1:9";
    assert_eq!(parse_url(s).unwrap().get_target_host(), "10.0.0.1:9");
    let u = parse_url("a:/b://h:12/p").unwrap();
    assert_eq!(u.scheme, "a:/b");
    assert_eq!(format!("{}{}", u.get_target_host(), u.path), "h:12/p");
    let u = parse_url("x:5/y").unwrap();
    assert_eq!((u.scheme.as_str(), u.host.as_str(), u.port, u.path.as_str()), ("http", "x", 5, "/y"));
}

#[test]
fn cli_getters() {
    let cli = Cli { listen: "http://:9000".to_string(), forward: "ss://1.2.3.4:5".to_string() };
    assert_eq!(cli.get_listen(), "http://:9000");
    assert_eq!(cli.get_forward(), "ss://1.2.3.4:5");
}

#[test]
fn cli_defaults() {
    let cli = Cli::default();
    assert_eq!(cli.get_listen(), "http://:8080");
    assert_eq!(cli.get_forward(), "http://192.168.1.1:8080");
}

#[test]
fn errors_convert_from_their_causes() {
    let e = "x".parse::<u16>().unwrap_err();
    assert!(matches!(RetError::from(e), RetError::ParseIntError(_)));
    let e = url::ParseError::EmptyHost;
    assert!(matches!(RetError::from(e), RetError::UrlParseError(url::ParseError::EmptyHost)));
}

#[test]
fn error_messages() {
    assert_eq!(RetError::Unexpected("boom".to_string()).message(), "Unexpected: boom");
    assert_eq!(RetError::AddrParseError(":x".to_string()).message(), "Addr parse url error: :x");
    let e = "".parse::<u16>().unwrap_err();
    assert_eq!(RetError::ParseIntError(e.clone()).message(), format!("Parse int error: {}", e));
    let f = url::ParseError::EmptyHost;
    assert_eq!(RetError::UrlParseError(f).message(), format!("Parse url error: {}", f));
    let io = std::io::Error::new(std::io::ErrorKind::Other, "disk");
    assert_eq!(RetError::UnexpectIO(io).message(), "Unexpected IO: disk");
}
