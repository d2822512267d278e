use vstd::prelude::*;

use crate::cache::{
    expiry, fresh_lookup, slot_lookup, slots_wf, slots_put, slots_remove, slots_touch, stored_entry,
    with_ws_state, CacheEntry, CacheEntryView, CacheKey, CacheSlots, DnsCache,
};
use crate::config::Config;
use crate::http::{header_view, request_header_list, request_headers};
use crate::ip::{copy_addresses, IpAddress};
use crate::probe::{distinct_addresses, keep_count};
use crate::ws::{record_ws_connection, ws_state_after_connect, WsReconnectMode, WsReconnectState};
use crate::resolve::{
    entry_well_ranked, lemma_lookup_well_ranked, lemma_put_well_ranked, lemma_touch_remove_well_ranked,
    lemma_retain_present, ranking_fits, slots_well_ranked, well_ranked,
    entry_view, keeps_stale_rank, retain_present, retain_present_addresses, AfterLookup,
    ResolveBegin, ResolveResult,
};

verus! {

/// The `Duration` of `ms` milliseconds.
pub uninterp spec fn millis_duration(ms: u64) -> core::time::Duration;

/// Calls `std::time::Duration::from_millis`; its result is named by
/// [`millis_duration`].
#[verifier::external_body]
fn duration_from_millis(ms: u64) -> (r: core::time::Duration)
    ensures
        r == millis_duration(ms),
{
    core::time::Duration::from_millis(ms)
}

/// Milliseconds in `secs` seconds, or the end of the range.
pub open spec fn secs_to_millis(secs: u64) -> u64 {
    if secs * 1000 > u64::MAX {
        u64::MAX
    } else {
        (secs * 1000) as u64
    }
}

/// The shared DNS cache and failover configuration.
pub struct Context {
    config: Config,
    cache: DnsCache,
}

impl Context {
    /// The configuration.
    pub closed spec fn cfg(&self) -> Config {
        self.config
    }

    /// The cached resolutions, most recently used first.
    pub closed spec fn slots(&self) -> CacheSlots {
        self.cache.slots()
    }

    /// How many resolutions the cache holds at most.
    pub closed spec fn cache_capacity(&self) -> nat {
        self.cache.capacity()
    }

    /// Every cached resolution has the shape that resolving produces
    /// (see [`well_ranked`]) for the configured `top_ips`.
    pub open spec fn well_ranked_cache(&self) -> bool {
        slots_well_ranked(self.slots(), self.cfg().top_ips)
    }

    /// The cache is well formed: distinct keys, at most `cache_capacity`
    /// of them, and room for at least one.
    pub open spec fn wf(&self) -> bool {
        &&& slots_wf(self.slots(), self.cache_capacity())
        &&& self.cache_capacity() > 0
    }

    /// A context with `config` and an empty cache for
    /// `config.lru_capacity` resolutions (at least one).
    pub fn new(config: Config) -> (r: Self)
        ensures
            r.wf(),
            r.well_ranked_cache(),
            r.cfg() == config,
            r.slots() == Seq::<(CacheKey, CacheEntryView)>::empty(),
            r.cache_capacity() == if config.lru_capacity == 0 { 1 } else { config.lru_capacity as nat },
    {
        let capacity = config.lru_capacity;
        Context { config, cache: DnsCache::new(capacity) }
    }

    /// The configuration.
    pub fn config(&self) -> (r: &Config)
        ensures
            *r == self.cfg(),
    {
        &self.config
    }

    /// Forgets the resolution of `host:port`.
    pub fn invalidate(&mut self, host: &str, port: u16)
        requires
            old(self).wf(),
        ensures
            final(self).wf(),
            final(self).cfg() == old(self).cfg(),
            final(self).cache_capacity() == old(self).cache_capacity(),
            old(self).well_ranked_cache() ==> final(self).well_ranked_cache(),
            final(self).slots() == slots_remove(old(self).slots(), (host@, port)),
    {
        self.cache.invalidate(host, port);
        proof {
            if old(self).well_ranked_cache() {
                lemma_touch_remove_well_ranked(old(self).slots(), (host@, port), old(self).cfg().top_ips);
            }
        }
    }

    /// Forgets every resolution.
    pub fn clear_cache(&mut self)
        requires
            old(self).wf(),
        ensures
            final(self).wf(),
            final(self).cfg() == old(self).cfg(),
            final(self).cache_capacity() == old(self).cache_capacity(),
            old(self).well_ranked_cache() ==> final(self).well_ranked_cache(),
            final(self).slots() == Seq::<(CacheKey, CacheEntryView)>::empty(),
    {
        self.cache.clear();
    }

    /// The TCP connect timeout.
    pub fn connect_timeout(&self) -> (r: core::time::Duration)
        ensures
            r == millis_duration(self.cfg().connect_timeout_ms),
    {
        duration_from_millis(self.config.connect_timeout_ms)
    }

    /// The request timeout for GET and HEAD.
    pub fn get_timeout(&self) -> (r: core::time::Duration)
        ensures
            r == millis_duration(self.cfg().get_timeout_ms),
    {
        duration_from_millis(self.config.get_timeout_ms)
    }

    /// The request timeout for other methods.
    pub fn other_timeout(&self) -> (r: core::time::Duration)
        ensures
            r == millis_duration(self.cfg().other_timeout_ms),
    {
        duration_from_millis(self.config.other_timeout_ms)
    }

    /// Records the WebSocket reconnect position of `host:port`, when the
    /// cache holds it.
    pub fn update_ws_state(&mut self, host: &str, port: u16, ws_index: usize, ws_retried_same: bool)
        requires
            old(self).wf(),
        ensures
            final(self).wf(),
            final(self).cfg() == old(self).cfg(),
            final(self).cache_capacity() == old(self).cache_capacity(),
            old(self).well_ranked_cache() ==> final(self).well_ranked_cache(),
            final(self).slots() == match slot_lookup(old(self).slots(), (host@, port)) {
                Some(e) => slots_put(
                    old(self).slots(),
                    old(self).cache_capacity(),
                    (host@, port),
                    with_ws_state(e, ws_index, ws_retried_same),
                ),
                None => old(self).slots(),
            },
    {
        self.cache.update_ws_state(host, port, ws_index, ws_retried_same);
        proof {
            self.lemma_ws_update_well_ranked(*old(self), host@, port, ws_index, ws_retried_same);
        }
    }

    /// The WebSocket reconnect position of `host:port` (fresh or expired),
    /// or `(0, false)` when nothing is cached.
    pub fn ws_state(&mut self, host: &str, port: u16, now: u64) -> (r: (usize, bool))
        requires
            old(self).wf(),
        ensures
            final(self).wf(),
            final(self).cfg() == old(self).cfg(),
            final(self).cache_capacity() == old(self).cache_capacity(),
            old(self).well_ranked_cache() ==> final(self).well_ranked_cache(),
            final(self).slots() == slots_touch(old(self).slots(), (host@, port)),
            r == match slot_lookup(old(self).slots(), (host@, port)) {
                Some(e) => (e.ws_index, e.ws_retried_same),
                None => (0usize, false),
            },
    {
        let ghost key = (host@, port);
        let found = match self.cache.get(host, port, now) {
            Some(e) => Some(e),
            None => self.cache.get_stale(host, port),
        };
        proof {
            crate::cache::law_cache_touch(old(self).slots(), old(self).cache_capacity(), key, key);
            if old(self).well_ranked_cache() {
                lemma_touch_remove_well_ranked(old(self).slots(), key, old(self).cfg().top_ips);
            }
        }
        match found {
            Some(e) => (e.ws_index, e.ws_retried_same),
            None => (0, false),
        }
    }

    /// Records that a failover WebSocket connect to `ip` of `host:port`
    /// succeeded: the reconnect `state` is updated (see
    /// [`ws_state_after_connect`]) and stored with the cached resolution.
    pub fn ws_connected(
        &mut self,
        host: &str,
        port: u16,
        ranked: &Vec<IpAddress>,
        mode: WsReconnectMode,
        ip: IpAddress,
        state: &mut WsReconnectState,
    )
        requires
            old(self).wf(),
        ensures
            final(self).wf(),
            final(self).cfg() == old(self).cfg(),
            final(self).cache_capacity() == old(self).cache_capacity(),
            old(self).well_ranked_cache() ==> final(self).well_ranked_cache(),
            *final(state) == ws_state_after_connect(*old(state), ranked@, mode, ip),
            final(self).slots() == match slot_lookup(old(self).slots(), (host@, port)) {
                Some(e) => slots_put(
                    old(self).slots(),
                    old(self).cache_capacity(),
                    (host@, port),
                    with_ws_state(e, final(state).connected_index, final(state).retried_same),
                ),
                None => old(self).slots(),
            },
    {
        record_ws_connection(state, ranked, mode, ip);
        self.cache.update_ws_state(host, port, state.connected_index, state.retried_same);
        proof {
            self.lemma_ws_update_well_ranked(*old(self), host@, port, state.connected_index, state.retried_same);
        }
    }

    proof fn lemma_ws_update_well_ranked(self, before: Self, host: Seq<char>, port: u16, ws_index: usize, ws_retried_same: bool)
        requires
            before.wf(),
            self.cfg() == before.cfg(),
            self.slots() == match slot_lookup(before.slots(), (host, port)) {
                Some(e) => slots_put(
                    before.slots(),
                    before.cache_capacity(),
                    (host, port),
                    with_ws_state(e, ws_index, ws_retried_same),
                ),
                None => before.slots(),
            },
        ensures
            before.well_ranked_cache() ==> self.well_ranked_cache(),
    {
        if before.well_ranked_cache() {
            let top = before.cfg().top_ips;
            lemma_lookup_well_ranked(before.slots(), (host, port), top);
            if let Some(e) = slot_lookup(before.slots(), (host, port)) {
                lemma_put_well_ranked(
                    before.slots(),
                    before.cache_capacity(),
                    (host, port),
                    with_ws_state(e, ws_index, ws_retried_same),
                    top,
                );
            }
        }
    }

    /// The request timeout: the GET one for GET and HEAD, else the other.
    pub fn request_timeout(&self, is_get_or_head: bool) -> (r: core::time::Duration)
        ensures
            is_get_or_head ==> r == millis_duration(self.cfg().get_timeout_ms),
            !is_get_or_head ==> r == millis_duration(self.cfg().other_timeout_ms),
    {
        if is_get_or_head {
            self.get_timeout()
        } else {
            self.other_timeout()
        }
    }

    /// The headers of one request attempt: the caller's usable `headers`;
    /// then, when the request fails over between addresses and so carries an
    /// `idempotency_id` (the same one on every attempt), the configured
    /// idempotency header with that id; then the JSON headers for a JSON body
    /// (see [`request_header_list`]). A direct request passes no id.
    pub fn attempt_headers(&self, headers: &Vec<(String, String)>, idempotency_id: Option<String>, json_body: bool) -> (r:
        Vec<(String, String)>)
        ensures
            r@.map_values(|p: (String, String)| header_view(p)) == request_header_list(
                headers@,
                match idempotency_id {
                    Some(id) => Some((self.cfg().idempotency_header@, id@)),
                    None => None,
                },
                json_body,
            ),
    {
        let idempotency = match idempotency_id {
            Some(id) => Some((self.config.idempotency_header.clone(), id)),
            None => None,
        };
        request_headers(headers, idempotency, json_body)
    }

    /// Starts resolving `host:port` at `now`: a fresh cached resolution is
    /// used as is (and becomes the most recently used); otherwise the host
    /// must be looked up, and the expired entry, if any, comes along.
    pub fn resolve_begin(&mut self, host: &str, port: u16, now: u64) -> (r: ResolveBegin)
        requires
            old(self).wf(),
        ensures
            final(self).wf(),
            final(self).cfg() == old(self).cfg(),
            final(self).cache_capacity() == old(self).cache_capacity(),
            old(self).well_ranked_cache() ==> final(self).well_ranked_cache(),
            old(self).well_ranked_cache() ==> match r {
                ResolveBegin::Cached(res) => well_ranked(
                    res.ranked_ips@,
                    res.failover_enabled,
                    old(self).cfg().top_ips,
                ),
                ResolveBegin::Lookup(stale) => entry_well_ranked(entry_view(stale), old(self).cfg().top_ips),
            },
            final(self).slots() == slots_touch(old(self).slots(), (host@, port)),
            match fresh_lookup(old(self).slots(), (host@, port), now) {
                Some(e) => r matches ResolveBegin::Cached(res) && res.ranked_ips@ == e.ranked_ips
                    && res.failover_enabled == e.failover_enabled,
                None => r matches ResolveBegin::Lookup(stale) && entry_view(stale) == slot_lookup(
                    old(self).slots(),
                    (host@, port),
                ),
            },
    {
        let ghost key = (host@, port);
        proof {
            if old(self).well_ranked_cache() {
                lemma_touch_remove_well_ranked(old(self).slots(), key, old(self).cfg().top_ips);
                lemma_lookup_well_ranked(old(self).slots(), key, old(self).cfg().top_ips);
            }
        }
        match self.cache.get(host, port, now) {
            Some(entry) => ResolveBegin::Cached(
                ResolveResult { ranked_ips: entry.ranked_ips, failover_enabled: entry.failover_enabled },
            ),
            None => {
                let stale = self.cache.get_stale(host, port);
                proof {
                    crate::cache::law_cache_touch(old(self).slots(), old(self).cache_capacity(), key, key);
                }
                ResolveBegin::Lookup(stale)
            },
        }
    }

    fn store(&mut self, host: &str, port: u16, all_ips: Vec<IpAddress>, ranked_ips: Vec<IpAddress>, failover_enabled: bool, now: u64)
        requires
            old(self).wf(),
        ensures
            final(self).wf(),
            final(self).cfg() == old(self).cfg(),
            final(self).cache_capacity() == old(self).cache_capacity(),
            old(self).well_ranked_cache() && well_ranked(ranked_ips@, failover_enabled, old(self).cfg().top_ips)
                ==> final(self).well_ranked_cache(),
            final(self).slots() == slots_put(
                old(self).slots(),
                old(self).cache_capacity(),
                (host@, port),
                stored_entry(
                    old(self).slots(),
                    (host@, port),
                    all_ips@,
                    ranked_ips@,
                    failover_enabled,
                    expiry(now, secs_to_millis(old(self).cfg().default_ttl_sec)),
                ),
            ),
    {
        let secs = self.config.default_ttl_sec;
        let ttl_ms: u64 = if secs > u64::MAX / 1000 {
            u64::MAX
        } else {
            secs * 1000
        };
        let ghost ranked_view = ranked_ips@;
        let ghost all_view = all_ips@;
        let ghost key = (host@, port);
        self.cache.put(host, port, all_ips, ranked_ips, failover_enabled, ttl_ms, now);
        proof {
            if old(self).well_ranked_cache() && well_ranked(ranked_view, failover_enabled, old(self).cfg().top_ips) {
                lemma_put_well_ranked(
                    old(self).slots(),
                    old(self).cache_capacity(),
                    key,
                    stored_entry(
                        old(self).slots(),
                        key,
                        all_view,
                        ranked_view,
                        failover_enabled,
                        expiry(now, secs_to_millis(old(self).cfg().default_ttl_sec)),
                    ),
                    old(self).cfg().top_ips,
                );
            }
        }
    }

    /// Continues a resolution of `host:port` with the addresses `fresh`
    /// that the lookup returned (and the `stale` entry from
    /// [`Context::resolve_begin`]). One address or none: no failover, cached
    /// as is. Else, when the stale ranking is still good (see
    /// [`keeps_stale_rank`]), it is kept with the addresses that left
    /// removed. Else the fresh addresses must be probed.
    pub fn resolve_after_lookup(
        &mut self,
        host: &str,
        port: u16,
        fresh: &Vec<IpAddress>,
        stale: Option<CacheEntry>,
        now: u64,
    ) -> (r: AfterLookup)
        requires
            old(self).wf(),
        ensures
            final(self).wf(),
            final(self).cfg() == old(self).cfg(),
            final(self).cache_capacity() == old(self).cache_capacity(),
            old(self).well_ranked_cache() && entry_well_ranked(entry_view(stale), old(self).cfg().top_ips)
                && fresh@.len() >= 1 && distinct_addresses(fresh@) ==> {
                &&& final(self).well_ranked_cache()
                &&& r matches AfterLookup::Resolved(res) ==> well_ranked(
                    res.ranked_ips@,
                    res.failover_enabled,
                    old(self).cfg().top_ips,
                )
            },
            fresh@.len() <= 1 ==> {
                &&& r matches AfterLookup::Resolved(res) && res.ranked_ips@ == fresh@ && !res.failover_enabled
                &&& final(self).slots() == slots_put(
                    old(self).slots(),
                    old(self).cache_capacity(),
                    (host@, port),
                    stored_entry(
                        old(self).slots(),
                        (host@, port),
                        fresh@,
                        fresh@,
                        false,
                        expiry(now, secs_to_millis(old(self).cfg().default_ttl_sec)),
                    ),
                )
            },
            fresh@.len() > 1 && keeps_stale_rank(entry_view(stale), fresh@) ==> {
                let ranked = retain_present(entry_view(stale).unwrap().ranked_ips, fresh@);
                &&& r matches AfterLookup::Resolved(res) && res.ranked_ips@ == ranked && res.failover_enabled
                &&& final(self).slots() == slots_put(
                    old(self).slots(),
                    old(self).cache_capacity(),
                    (host@, port),
                    stored_entry(
                        old(self).slots(),
                        (host@, port),
                        fresh@,
                        ranked,
                        true,
                        expiry(now, secs_to_millis(old(self).cfg().default_ttl_sec)),
                    ),
                )
            },
            fresh@.len() > 1 && !keeps_stale_rank(entry_view(stale), fresh@) ==> {
                &&& r is Probe
                &&& final(self).slots() == old(self).slots()
            },
    {
        if fresh.len() <= 1 {
            let ranked = copy_addresses(fresh);
            proof {
                assert(keep_count(old(self).cfg().top_ips) >= 1);
            }
            self.store(host, port, copy_addresses(fresh), copy_addresses(&ranked), false, now);
            return AfterLookup::Resolved(ResolveResult { ranked_ips: ranked, failover_enabled: false });
        }
        if let Some(s) = stale {
            if s.failover_enabled && s.ranked_ips.len() > 0 {
                let top = s.ranked_ips[0];
                if crate::ip::contains_address(fresh, top) {
                    let ranked = retain_present_addresses(&s.ranked_ips, fresh);
                    proof {
                        lemma_retain_present(s.ranked_ips@, fresh@);
                    }
                    if ranked.len() > 1 {
                        self.store(host, port, copy_addresses(fresh), copy_addresses(&ranked), true, now);
                        return AfterLookup::Resolved(ResolveResult { ranked_ips: ranked, failover_enabled: true });
                    }
                }
            }
        }
        AfterLookup::Probe
    }

    /// Finishes a resolution of `host:port` with the probe ranking `ranked`
    /// of the addresses `fresh`: failover is on exactly when more than one
    /// address is ranked, and the resolution is cached.
    pub fn resolve_after_probe(
        &mut self,
        host: &str,
        port: u16,
        fresh: &Vec<IpAddress>,
        ranked: Vec<IpAddress>,
        now: u64,
    ) -> (r: ResolveResult)
        requires
            old(self).wf(),
        ensures
            final(self).wf(),
            final(self).cfg() == old(self).cfg(),
            final(self).cache_capacity() == old(self).cache_capacity(),
            old(self).well_ranked_cache() && ranking_fits(ranked@, old(self).cfg().top_ips)
                ==> final(self).well_ranked_cache(),
            ranking_fits(ranked@, old(self).cfg().top_ips) ==> well_ranked(
                r.ranked_ips@,
                r.failover_enabled,
                old(self).cfg().top_ips,
            ),
            r.ranked_ips@ == ranked@,
            r.failover_enabled <==> ranked@.len() > 1,
            final(self).slots() == slots_put(
                old(self).slots(),
                old(self).cache_capacity(),
                (host@, port),
                stored_entry(
                    old(self).slots(),
                    (host@, port),
                    fresh@,
                    ranked@,
                    ranked@.len() > 1,
                    expiry(now, secs_to_millis(old(self).cfg().default_ttl_sec)),
                ),
            ),
    {
        let failover_enabled = ranked.len() > 1;
        self.store(host, port, copy_addresses(fresh), copy_addresses(&ranked), failover_enabled, now);
        ResolveResult { ranked_ips: ranked, failover_enabled }
    }
}

} // verus!
