use http_fo::{should_failover_gateway, transport_error_warrants_failover};

#[test]
fn gateway_codes_only_when_enabled() {
    assert!(!should_failover_gateway(503, false));
    assert!(should_failover_gateway(503, true));
    assert!(!should_failover_gateway(500, true));
}

#[test]
fn gateway_codes_502_and_504() {
    assert!(should_failover_gateway(502, true));
    assert!(should_failover_gateway(504, true));
    assert!(!should_failover_gateway(404, true));
    assert!(!should_failover_gateway(200, true));
}

#[test]
fn transport_kinds_that_fail_over() {
    assert!(transport_error_warrants_failover(true, false, false, false));
    assert!(transport_error_warrants_failover(false, true, false, false));
    assert!(transport_error_warrants_failover(false, false, true, false));
    assert!(transport_error_warrants_failover(false, false, false, true));
    assert!(!transport_error_warrants_failover(false, false, false, false));
}
