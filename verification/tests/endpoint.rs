use http_fo::{endpoint_from_url, parse_endpoint, Error, Scheme, UrlParts};

#[test]
fn parses_wss_default_port() {
    let ep = parse_endpoint("wss://idr.to/v1/signal").unwrap();
    assert_eq!(ep.host, "idr.to");
    assert_eq!(ep.port, 443);
    assert!(ep.scheme.is_tls());
}

#[test]
fn parses_http_explicit_port() {
    let ep = parse_endpoint("http://example.com:8080/x").unwrap();
    assert_eq!(ep.host, "example.com");
    assert_eq!(ep.port, 8080);
    assert_eq!(ep.scheme, Scheme::Http);
    assert_eq!(ep.origin, "http://example.com:8080");
}

#[test]
fn parse_failure_is_url_error() {
    assert!(matches!(parse_endpoint("not a url"), Err(Error::Url(_))));
}

#[test]
fn unsupported_scheme_message() {
    match parse_endpoint("ftp://example.com/") {
        Err(Error::WebSocket(m)) => assert_eq!(m, "unsupported scheme: ftp"),
        other => panic!("unexpected {:?}", other),
    }
}

#[test]
fn missing_host_from_parts() {
    let parts = UrlParts { scheme: "ws".to_string(), host: None, port: None, origin: "null".to_string() };
    match endpoint_from_url(Ok(parts)) {
        Err(Error::WebSocket(m)) => assert_eq!(m, "URL missing host"),
        other => panic!("unexpected {:?}", other),
    }
}

#[test]
fn parts_default_ports() {
    let parts = UrlParts {
        scheme: "https".to_string(),
        host: Some("a.example".to_string()),
        port: None,
        origin: "https://a.example".to_string(),
    };
    let ep = endpoint_from_url(Ok(parts)).unwrap();
    assert_eq!(ep.port, 443);
    assert_eq!(ep.scheme, Scheme::Https);
    assert_eq!(ep.host, "a.example");
    let parts = UrlParts {
        scheme: "ws".to_string(),
        host: Some("b.example".to_string()),
        port: Some(9000),
        origin: "ws://b.example:9000".to_string(),
    };
    let ep = endpoint_from_url(Ok(parts)).unwrap();
    assert_eq!(ep.port, 9000);
    assert!(!ep.scheme.is_tls());
}

#[test]
fn scheme_ports_and_tls() {
    assert_eq!(Scheme::Http.default_port(), 80);
    assert_eq!(Scheme::Ws.default_port(), 80);
    assert_eq!(Scheme::Https.default_port(), 443);
    assert_eq!(Scheme::Wss.default_port(), 443);
    assert!(Scheme::Https.is_tls());
    assert!(Scheme::Wss.is_tls());
    assert!(!Scheme::Http.is_tls());
    assert!(!Scheme::Ws.is_tls());
}
