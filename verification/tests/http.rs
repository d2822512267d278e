use http_fo::{HttpAttemptOutcome, HttpExhausted, HttpFailover, HttpVerdict, IpAddress, ResolveResult};

fn ip(n: u32) -> IpAddress {
    IpAddress::V4(n)
}

#[test]
fn no_failover_means_direct() {
    let r = ResolveResult { ranked_ips: vec![ip(1)], failover_enabled: false };
    assert!(HttpFailover::start(r, false).is_none());
}

#[test]
fn transport_errors_walk_the_ranking() {
    let r = ResolveResult { ranked_ips: vec![ip(1), ip(2), ip(3)], failover_enabled: true };
    let mut f = HttpFailover::start(r, false).unwrap();
    assert_eq!(f.next_ip(), Some(ip(1)));
    assert_eq!(f.on_outcome(HttpAttemptOutcome::TransportError { failover: true }), HttpVerdict::TryNext);
    assert_eq!(f.next_ip(), Some(ip(2)));
    assert_eq!(f.on_outcome(HttpAttemptOutcome::Response { status: 500 }), HttpVerdict::Deliver);
}

#[test]
fn non_failover_transport_error_fails() {
    let r = ResolveResult { ranked_ips: vec![ip(1), ip(2)], failover_enabled: true };
    let mut f = HttpFailover::start(r, true).unwrap();
    assert_eq!(f.next_ip(), Some(ip(1)));
    assert_eq!(f.on_outcome(HttpAttemptOutcome::TransportError { failover: false }), HttpVerdict::Fail);
}

#[test]
fn gateway_failover_when_enabled() {
    let r = ResolveResult { ranked_ips: vec![ip(1), ip(2)], failover_enabled: true };
    let mut f = HttpFailover::start(r, true).unwrap();
    assert_eq!(f.next_ip(), Some(ip(1)));
    assert_eq!(f.on_outcome(HttpAttemptOutcome::Response { status: 503 }), HttpVerdict::TryNext);
    assert_eq!(f.next_ip(), Some(ip(2)));
    assert_eq!(f.on_outcome(HttpAttemptOutcome::Response { status: 502 }), HttpVerdict::TryNext);
    assert_eq!(f.next_ip(), None);
    assert_eq!(f.exhausted(), HttpExhausted::AllIpsFailed);
}

#[test]
fn exhausted_after_transport_error() {
    let r = ResolveResult { ranked_ips: vec![ip(1), ip(2)], failover_enabled: true };
    let mut f = HttpFailover::start(r, true).unwrap();
    f.next_ip();
    f.on_outcome(HttpAttemptOutcome::TransportError { failover: true });
    f.next_ip();
    f.on_outcome(HttpAttemptOutcome::Response { status: 504 });
    assert_eq!(f.next_ip(), None);
    assert_eq!(f.exhausted(), HttpExhausted::LastTransportError);
}

fn pairs(p: &[(&str, &str)]) -> Vec<(String, String)> {
    p.iter().map(|(k, v)| (k.to_string(), v.to_string())).collect()
}

#[test]
fn request_headers_drop_invalid_pairs() {
    let h = pairs(&[("X-Trace", "1"), ("bad name", "v"), ("X-Ok", "line\nbreak"), ("Accept-Language", "en")]);
    let r = http_fo::request_headers(&h, None, false);
    assert_eq!(r, pairs(&[("X-Trace", "1"), ("Accept-Language", "en")]));
}

#[test]
fn request_headers_idempotency_then_json() {
    let h = pairs(&[("X-Trace", "1")]);
    let r = http_fo::request_headers(&h, Some(("X-Curl-FO-Id".to_string(), "abc".to_string())), true);
    assert_eq!(
        r,
        pairs(&[
            ("X-Trace", "1"),
            ("X-Curl-FO-Id", "abc"),
            ("content-type", "application/json"),
            ("accept", "application/json"),
        ])
    );
    let r = http_fo::request_headers(&h, Some(("bad name".to_string(), "abc".to_string())), false);
    assert_eq!(r, pairs(&[("X-Trace", "1")]));
}

#[test]
fn attempt_headers_use_configured_idempotency_header() {
    let ctx = http_fo::Context::new(http_fo::Config::default());
    let r = ctx.attempt_headers(&Vec::new(), Some("id-1".to_string()), false);
    assert_eq!(r, pairs(&[("X-Curl-FO-Id", "id-1")]));
    let r = ctx.attempt_headers(&Vec::new(), None, true);
    assert_eq!(r, pairs(&[("content-type", "application/json"), ("accept", "application/json")]));
}
