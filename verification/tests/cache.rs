use http_fo::{DnsCache, IpAddress};

fn ip(n: u32) -> IpAddress {
    IpAddress::V4(n)
}

#[test]
fn put_then_get_before_expiry() {
    let mut c = DnsCache::new(4);
    c.put("a", 1, vec![ip(1), ip(2)], vec![ip(2), ip(1)], true, 1_000, 100);
    let e = c.get("a", 1, 500).unwrap();
    assert_eq!(e.all_ips, vec![ip(1), ip(2)]);
    assert_eq!(e.ranked_ips, vec![ip(2), ip(1)]);
    assert_eq!(e.expires_at, 1_100);
    assert!(e.failover_enabled);
    assert_eq!(e.ws_index, 0);
    assert!(!e.ws_retried_same);
}

#[test]
fn expired_entry_only_stale() {
    let mut c = DnsCache::new(4);
    c.put("a", 1, vec![ip(1)], vec![ip(1)], false, 1_000, 100);
    assert!(c.get("a", 1, 1_100).is_none());
    assert!(c.get("a", 2, 500).is_none());
    let e = c.get_stale("a", 1).unwrap();
    assert_eq!(e.ranked_ips, vec![ip(1)]);
}

#[test]
fn expiry_saturates() {
    let mut c = DnsCache::new(1);
    c.put("a", 1, vec![], vec![], false, u64::MAX, 5);
    assert_eq!(c.get_stale("a", 1).unwrap().expires_at, u64::MAX);
}

#[test]
fn put_keeps_ws_state() {
    let mut c = DnsCache::new(4);
    c.put("a", 1, vec![ip(1)], vec![ip(1)], false, 1_000, 0);
    c.update_ws_state("a", 1, 2, true);
    c.put("a", 1, vec![ip(3)], vec![ip(3)], false, 1_000, 10);
    let e = c.get("a", 1, 20).unwrap();
    assert_eq!(e.ranked_ips, vec![ip(3)]);
    assert_eq!(e.ws_index, 2);
    assert!(e.ws_retried_same);
}

#[test]
fn ws_update_without_entry_does_nothing() {
    let mut c = DnsCache::new(4);
    c.update_ws_state("a", 1, 2, true);
    assert!(c.get_stale("a", 1).is_none());
}

#[test]
fn invalidate_and_clear() {
    let mut c = DnsCache::new(4);
    c.put("a", 1, vec![ip(1)], vec![ip(1)], false, 1_000, 0);
    c.put("b", 1, vec![ip(2)], vec![ip(2)], false, 1_000, 0);
    c.invalidate("a", 1);
    assert!(c.get_stale("a", 1).is_none());
    assert!(c.get_stale("b", 1).is_some());
    c.clear();
    assert!(c.get_stale("b", 1).is_none());
}

#[test]
fn least_recently_used_is_evicted() {
    let mut c = DnsCache::new(2);
    c.put("a", 1, vec![ip(1)], vec![ip(1)], false, 1_000, 0);
    c.put("b", 1, vec![ip(2)], vec![ip(2)], false, 1_000, 0);
    assert!(c.get("a", 1, 1).is_some());
    c.put("c", 1, vec![ip(3)], vec![ip(3)], false, 1_000, 0);
    assert!(c.get_stale("a", 1).is_some());
    assert!(c.get_stale("b", 1).is_none());
    assert!(c.get_stale("c", 1).is_some());
}

#[test]
fn zero_capacity_holds_one() {
    let mut c = DnsCache::new(0);
    c.put("a", 1, vec![ip(1)], vec![ip(1)], false, 1_000, 0);
    assert!(c.get_stale("a", 1).is_some());
    c.put("b", 1, vec![ip(2)], vec![ip(2)], false, 1_000, 0);
    assert!(c.get_stale("a", 1).is_none());
    assert!(c.get_stale("b", 1).is_some());
}
