use http_fo::{AfterLookup, Config, Context, IpAddress, ResolveBegin, WsReconnectMode, WsReconnectState};

fn ip(n: u32) -> IpAddress {
    IpAddress::V4(n)
}

fn begin_lookup(ctx: &mut Context, now: u64) -> Option<http_fo::CacheEntry> {
    match ctx.resolve_begin("h", 443, now) {
        ResolveBegin::Lookup(stale) => stale,
        ResolveBegin::Cached(_) => panic!("unexpected cache hit"),
    }
}

#[test]
fn single_ip_bypasses_failover() {
    let mut ctx = Context::new(Config::default());
    let stale = begin_lookup(&mut ctx, 0);
    assert!(stale.is_none());
    match ctx.resolve_after_lookup("h", 443, &vec![ip(1)], stale, 0) {
        AfterLookup::Resolved(r) => {
            assert_eq!(r.ranked_ips, vec![ip(1)]);
            assert!(!r.failover_enabled);
        },
        AfterLookup::Probe => panic!("single address needs no probe"),
    }
    match ctx.resolve_begin("h", 443, 299_999) {
        ResolveBegin::Cached(r) => {
            assert_eq!(r.ranked_ips, vec![ip(1)]);
            assert!(!r.failover_enabled);
        },
        ResolveBegin::Lookup(_) => panic!("expected a cache hit"),
    }
    assert!(matches!(ctx.resolve_begin("h", 443, 300_000), ResolveBegin::Lookup(Some(_))));
}

#[test]
fn several_ips_need_probe_then_cached() {
    let mut ctx = Context::new(Config::default());
    let fresh = vec![ip(1), ip(2), ip(3)];
    let stale = begin_lookup(&mut ctx, 0);
    assert!(matches!(ctx.resolve_after_lookup("h", 443, &fresh, stale, 0), AfterLookup::Probe));
    let r = ctx.resolve_after_probe("h", 443, &fresh, vec![ip(3), ip(1)], 0);
    assert!(r.failover_enabled);
    assert_eq!(r.ranked_ips, vec![ip(3), ip(1)]);
    match ctx.resolve_begin("h", 443, 10) {
        ResolveBegin::Cached(c) => {
            assert_eq!(c.ranked_ips, vec![ip(3), ip(1)]);
            assert!(c.failover_enabled);
        },
        ResolveBegin::Lookup(_) => panic!("expected a cache hit"),
    }
}

#[test]
fn ttl_refresh_preserves_rank() {
    let mut ctx = Context::new(Config::default());
    let fresh = vec![ip(1), ip(2), ip(3)];
    let _ = begin_lookup(&mut ctx, 0);
    ctx.resolve_after_probe("h", 443, &fresh, vec![ip(3), ip(1), ip(2)], 0);
    let stale = begin_lookup(&mut ctx, 400_000);
    assert!(stale.is_some());
    let refreshed = vec![ip(1), ip(3), ip(4)];
    match ctx.resolve_after_lookup("h", 443, &refreshed, stale, 400_000) {
        AfterLookup::Resolved(r) => {
            assert_eq!(r.ranked_ips, vec![ip(3), ip(1)]);
            assert!(r.failover_enabled);
        },
        AfterLookup::Probe => panic!("rank should be kept"),
    }
}

#[test]
fn ttl_refresh_reprobes_when_best_gone() {
    let mut ctx = Context::new(Config::default());
    let fresh = vec![ip(1), ip(2), ip(3)];
    let _ = begin_lookup(&mut ctx, 0);
    ctx.resolve_after_probe("h", 443, &fresh, vec![ip(3), ip(1), ip(2)], 0);
    let stale = begin_lookup(&mut ctx, 400_000);
    let refreshed = vec![ip(1), ip(2)];
    assert!(matches!(ctx.resolve_after_lookup("h", 443, &refreshed, stale, 400_000), AfterLookup::Probe));
}

#[test]
fn probe_with_one_survivor_disables_failover() {
    let mut ctx = Context::new(Config::default());
    let r = ctx.resolve_after_probe("h", 443, &vec![ip(1), ip(2)], vec![ip(2)], 0);
    assert!(!r.failover_enabled);
}

#[test]
fn ws_state_round_trip() {
    let mut ctx = Context::new(Config::default());
    assert_eq!(ctx.ws_state("h", 443, 0), (0, false));
    let ranked = vec![ip(1), ip(2)];
    ctx.resolve_after_probe("h", 443, &ranked, ranked.clone(), 0);
    let mut state = WsReconnectState::default();
    ctx.ws_connected("h", 443, &ranked, WsReconnectMode::Initial, ip(2), &mut state);
    assert_eq!(state, WsReconnectState { connected_index: 1, retried_same: false });
    assert_eq!(ctx.ws_state("h", 443, 1_000_000), (1, false));
    ctx.update_ws_state("h", 443, 0, true);
    assert_eq!(ctx.ws_state("h", 443, 5), (0, true));
    ctx.invalidate("h", 443);
    assert_eq!(ctx.ws_state("h", 443, 5), (0, false));
}

#[test]
fn context_timeouts_and_config() {
    let ctx = Context::new(Config::with_network(10, 2, 100, 200, 300));
    assert_eq!(ctx.connect_timeout(), std::time::Duration::from_millis(100));
    assert_eq!(ctx.get_timeout(), std::time::Duration::from_millis(200));
    assert_eq!(ctx.other_timeout(), std::time::Duration::from_millis(300));
    assert_eq!(ctx.request_timeout(true), std::time::Duration::from_millis(200));
    assert_eq!(ctx.request_timeout(false), std::time::Duration::from_millis(300));
    assert_eq!(ctx.config().top_ips, 2);
}

#[test]
fn clear_cache_forgets_everything() {
    let mut ctx = Context::new(Config::default());
    ctx.resolve_after_probe("h", 443, &vec![ip(1), ip(2)], vec![ip(1), ip(2)], 0);
    ctx.clear_cache();
    assert!(matches!(ctx.resolve_begin("h", 443, 1), ResolveBegin::Lookup(None)));
}
