use http_fo::Config;

fn vars(pairs: &[(&str, &str)]) -> Vec<(String, String)> {
    pairs.iter().map(|(k, v)| (k.to_string(), v.to_string())).collect()
}

#[test]
fn defaults_match_curl_fo() {
    let cfg = Config::default();
    assert_eq!(cfg.lru_capacity, 500);
    assert_eq!(cfg.top_ips, 3);
    assert_eq!(cfg.connect_timeout_ms, 3_000);
    assert_eq!(cfg.idempotency_header, "X-Curl-FO-Id");
}

#[test]
fn remaining_defaults() {
    let cfg = Config::default();
    assert_eq!(cfg.get_timeout_ms, 15_000);
    assert_eq!(cfg.other_timeout_ms, 60_000);
    assert_eq!(cfg.latency_bucket_ms, 10);
    assert_eq!(cfg.default_ttl_sec, 300);
    assert!(!cfg.verbose);
    assert!(!cfg.failover_gateway);
    assert!(cfg.tcp_race);
}

#[test]
fn with_network_zero_keeps_default() {
    let cfg = Config::with_network(0, 5, 0, 1_000, 0);
    assert_eq!(cfg.lru_capacity, 500);
    assert_eq!(cfg.top_ips, 5);
    assert_eq!(cfg.connect_timeout_ms, 3_000);
    assert_eq!(cfg.get_timeout_ms, 1_000);
    assert_eq!(cfg.other_timeout_ms, 60_000);
}

#[test]
fn with_network_all_set() {
    let cfg = Config::with_network(7, 2, 100, 200, 300);
    assert_eq!(cfg.lru_capacity, 7);
    assert_eq!(cfg.top_ips, 2);
    assert_eq!(cfg.connect_timeout_ms, 100);
    assert_eq!(cfg.get_timeout_ms, 200);
    assert_eq!(cfg.other_timeout_ms, 300);
    assert_eq!(cfg.idempotency_header, "X-Curl-FO-Id");
}

#[test]
fn env_primary_name_wins_over_alias() {
    let mut cfg = Config::default();
    cfg.apply_env(&vars(&[("CURL_FO_LRU_SIZE", "10"), ("HTTP_FO_LRU_SIZE", "20")]));
    assert_eq!(cfg.lru_capacity, 20);
}

#[test]
fn env_alias_used_when_primary_unset() {
    let mut cfg = Config::default();
    cfg.apply_env(&vars(&[("CURL_FO_TOP_IPS", "4"), ("CURL_FO_DEFAULT_TTL_SEC", "+60")]));
    assert_eq!(cfg.top_ips, 4);
    assert_eq!(cfg.default_ttl_sec, 60);
}

#[test]
fn env_unparsable_number_keeps_value() {
    let mut cfg = Config::default();
    cfg.apply_env(&vars(&[
        ("HTTP_FO_GET_TIMEOUT_MS", "fast"),
        ("HTTP_FO_OTHER_TIMEOUT_MS", "-5"),
        ("HTTP_FO_CONNECT_TIMEOUT_MS", ""),
        ("HTTP_FO_LATENCY_BUCKET_MS", "99999999999999999999999"),
    ]));
    assert_eq!(cfg.get_timeout_ms, 15_000);
    assert_eq!(cfg.other_timeout_ms, 60_000);
    assert_eq!(cfg.connect_timeout_ms, 3_000);
    assert_eq!(cfg.latency_bucket_ms, 10);
}

#[test]
fn env_header_and_flags() {
    let mut cfg = Config::default();
    cfg.apply_env(&vars(&[
        ("HTTP_FO_IDEMPOTENCY_HEADER", "X-Retry-Id"),
        ("HTTP_FO_VERBOSE", "yes"),
        ("CURL_FO_FAILOVER_GATEWAY", "on"),
        ("HTTP_FO_TCP_RACE", "off"),
    ]));
    assert_eq!(cfg.idempotency_header, "X-Retry-Id");
    assert!(cfg.verbose);
    assert!(cfg.failover_gateway);
    assert!(!cfg.tcp_race);
}

#[test]
fn env_empty_header_and_other_flag_values() {
    let mut cfg = Config::default();
    cfg.verbose = true;
    cfg.apply_env(&vars(&[
        ("HTTP_FO_IDEMPOTENCY_HEADER", ""),
        ("HTTP_FO_VERBOSE", "maybe"),
        ("HTTP_FO_TCP_RACE", "1"),
    ]));
    assert_eq!(cfg.idempotency_header, "X-Curl-FO-Id");
    assert!(!cfg.verbose);
    assert!(cfg.tcp_race);
}
