use http_fo::{
    ips_for_mode, prepare_ws_reconnect, record_ws_connection, ws_exhausted_error, ws_plan, Error,
    IpAddress, ResolveResult, WsPlan, WsReconnectMode, WsReconnectState,
};

fn v4(a: u8, b: u8, c: u8, d: u8) -> IpAddress {
    IpAddress::V4(u32::from_be_bytes([a, b, c, d]))
}

fn loopbacks() -> Vec<IpAddress> {
    vec![v4(127, 0, 0, 1), IpAddress::V6(1)]
}

#[test]
fn initial_mode_tries_all_ranked() {
    let ips = loopbacks();
    let state = WsReconnectState::default();
    let try_list = ips_for_mode(&ips, WsReconnectMode::Initial, &state);
    assert_eq!(try_list.len(), 2);
}

#[test]
fn reconnect_targets_current_index() {
    let ips = loopbacks();
    let state = WsReconnectState { connected_index: 1, retried_same: true };
    let try_list = ips_for_mode(&ips, WsReconnectMode::AfterDisconnect, &state);
    assert_eq!(try_list, vec![ips[1]]);
}

#[test]
fn prepare_advances_after_same_ip_retry() {
    let mut state = WsReconnectState { connected_index: 0, retried_same: true };
    prepare_ws_reconnect(&mut state, 3);
    assert_eq!(state.connected_index, 1);
    assert!(!state.retried_same);
}

#[test]
fn prepare_retries_same_first() {
    let mut state = WsReconnectState { connected_index: 2, retried_same: false };
    prepare_ws_reconnect(&mut state, 3);
    assert_eq!(state, WsReconnectState { connected_index: 2, retried_same: true });
    prepare_ws_reconnect(&mut state, 3);
    assert_eq!(state, WsReconnectState { connected_index: 0, retried_same: false });
}

#[test]
fn prepare_with_nothing_ranked_is_noop() {
    let mut state = WsReconnectState { connected_index: 4, retried_same: true };
    prepare_ws_reconnect(&mut state, 0);
    assert_eq!(state, WsReconnectState { connected_index: 4, retried_same: true });
}

#[test]
fn reconnect_cycle_visits_every_address() {
    let mut state = WsReconnectState::default();
    let mut seen = Vec::new();
    for _ in 0..6 {
        prepare_ws_reconnect(&mut state, 3);
        seen.push(state.connected_index);
    }
    assert_eq!(seen, vec![0, 1, 1, 2, 2, 0]);
}

#[test]
fn reset_returns_to_start() {
    let mut state = WsReconnectState { connected_index: 5, retried_same: true };
    state.reset();
    assert_eq!(state, WsReconnectState { connected_index: 0, retried_same: false });
}

#[test]
fn reconnect_index_clamped_to_last() {
    let ips = loopbacks();
    let state = WsReconnectState { connected_index: 9, retried_same: false };
    assert_eq!(ips_for_mode(&ips, WsReconnectMode::AfterDisconnect, &state), vec![ips[1]]);
    assert!(ips_for_mode(&Vec::new(), WsReconnectMode::Initial, &state).is_empty());
}

#[test]
fn plan_direct_without_failover() {
    let resolved = ResolveResult { ranked_ips: vec![v4(10, 0, 0, 1)], failover_enabled: false };
    let plan = ws_plan(&resolved, WsReconnectMode::Initial, &WsReconnectState::default(), "h", 443);
    assert!(matches!(plan, Ok(WsPlan::Direct(ip)) if ip == v4(10, 0, 0, 1)));
}

#[test]
fn plan_errors_without_addresses() {
    let resolved = ResolveResult { ranked_ips: vec![], failover_enabled: false };
    match ws_plan(&resolved, WsReconnectMode::Initial, &WsReconnectState::default(), "h", 80) {
        Err(Error::NoAddresses { host, port }) => {
            assert_eq!(host, "h");
            assert_eq!(port, 80);
        },
        _ => panic!("expected NoAddresses"),
    }
    let resolved = ResolveResult { ranked_ips: vec![], failover_enabled: true };
    match ws_plan(&resolved, WsReconnectMode::Initial, &WsReconnectState::default(), "h", 80) {
        Err(Error::AllIpsFailed { host, port }) => {
            assert_eq!(host, "h");
            assert_eq!(port, 80);
        },
        _ => panic!("expected AllIpsFailed"),
    }
}

#[test]
fn plan_attempts_with_failover() {
    let ips = loopbacks();
    let resolved = ResolveResult { ranked_ips: ips.clone(), failover_enabled: true };
    let state = WsReconnectState { connected_index: 1, retried_same: true };
    match ws_plan(&resolved, WsReconnectMode::AfterDisconnect, &state, "h", 80) {
        Ok(WsPlan::Attempts(v)) => assert_eq!(v, vec![ips[1]]),
        _ => panic!("expected attempts"),
    }
}

#[test]
fn connection_recorded_on_initial_connect() {
    let ips = loopbacks();
    let mut state = WsReconnectState { connected_index: 0, retried_same: true };
    record_ws_connection(&mut state, &ips, WsReconnectMode::Initial, ips[1]);
    assert_eq!(state, WsReconnectState { connected_index: 1, retried_same: false });
    let mut state = WsReconnectState { connected_index: 0, retried_same: true };
    record_ws_connection(&mut state, &ips, WsReconnectMode::AfterDisconnect, ips[1]);
    assert_eq!(state, WsReconnectState { connected_index: 0, retried_same: true });
}

#[test]
fn exhausted_error_messages() {
    match ws_exhausted_error("api.example.com", 8443, String::new()) {
        Error::WebSocket(m) => assert_eq!(m, "all IPs failed for api.example.com:8443"),
        _ => panic!("expected WebSocket"),
    }
    match ws_exhausted_error("h", 0, "connect timeout".to_string()) {
        Error::WebSocket(m) => assert_eq!(m, "connect timeout"),
        _ => panic!("expected WebSocket"),
    }
}
