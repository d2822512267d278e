use vstd::prelude::*;

use crate::cache::{
    fresh_lookup, law_cache_put_then_lookup, slot_index, slot_lookup, slots_put, slots_remove,
    slots_touch, slots_wf, stored_entry, with_ws_state, CacheEntry, CacheEntryView, CacheKey,
    CacheSlots,
};
use crate::ip::IpAddress;
use crate::probe::{
    distinct_addresses, first_n, is_latency_ranking, keep_count, law_latency_ranking_shape,
    law_race_ranking_shape, race_ranking,
};

verus! {

/// A resolution ready for a failover-aware connect.
#[derive(Debug, Clone)]
pub struct ResolveResult {
    /// The addresses to use, best first.
    pub ranked_ips: Vec<IpAddress>,
    /// When false, callers should use a plain connect (no address pinning,
    /// no retry loop).
    pub failover_enabled: bool,
}

/// How a resolution starts.
pub enum ResolveBegin {
    /// A fresh cached resolution.
    Cached(ResolveResult),
    /// Look the host up; the expired entry, if any, comes along for the
    /// next step.
    Lookup(Option<CacheEntry>),
}

/// What a resolution needs after the DNS lookup.
pub enum AfterLookup {
    /// Done, without probing.
    Resolved(ResolveResult),
    /// Rank these addresses (the fresh lookup) by probing them.
    Probe,
}

/// `s` without the addresses that `present` lacks, in order.
pub open spec fn retain_present(s: Seq<IpAddress>, present: Seq<IpAddress>) -> Seq<IpAddress>
    decreases s.len(),
{
    if s.len() == 0 {
        s
    } else if present.contains(s.last()) {
        retain_present(s.drop_last(), present).push(s.last())
    } else {
        retain_present(s.drop_last(), present)
    }
}

/// Whether a TTL refresh keeps the old ranking: the stale entry had
/// failover on, its best address is still in the fresh lookup, and more
/// than one of its ranked addresses is.
pub open spec fn keeps_stale_rank(stale: Option<CacheEntryView>, fresh: Seq<IpAddress>) -> bool {
    match stale {
        Some(s) => {
            &&& s.failover_enabled
            &&& s.ranked_ips.len() > 0
            &&& fresh.contains(s.ranked_ips[0])
            &&& retain_present(s.ranked_ips, fresh).len() > 1
        },
        None => false,
    }
}

/// The entry view of an optional cache entry.
pub open spec fn entry_view(e: Option<CacheEntry>) -> Option<CacheEntryView> {
    match e {
        Some(x) => Some(x@),
        None => None,
    }
}

/// The addresses of `s` that also occur in `present`, in the order of `s`.
pub fn retain_present_addresses(s: &Vec<IpAddress>, present: &Vec<IpAddress>) -> (r: Vec<IpAddress>)
    ensures
        r@ == retain_present(s@, present@),
{
    let mut r: Vec<IpAddress> = Vec::new();
    let mut i: usize = 0;
    while i < s.len()
        invariant
            i <= s.len(),
            r@ == retain_present(s@.take(i as int), present@),
        decreases s.len() - i,
    {
        assert(s@.take(i + 1).drop_last() =~= s@.take(i as int));
        assert(s@.take(i + 1).last() == s@[i as int]);
        if crate::ip::contains_address(present, s[i]) {
            r.push(s[i]);
        }
        i = i + 1;
    }
    assert(s@.take(s.len() as int) =~= s@);
    r
}

/// Resolution: a resolution stored at one instant is served from the cache,
/// unchanged, at every later instant before it expires.
pub proof fn law_resolution_served_from_cache(
    slots: CacheSlots,
    cap: nat,
    key: CacheKey,
    all_ips: Seq<IpAddress>,
    ranked_ips: Seq<IpAddress>,
    failover_enabled: bool,
    expires_at: u64,
    later: u64,
)
    requires
        slots_wf(slots, cap),
        cap > 0,
        later < expires_at,
    ensures
        fresh_lookup(
            slots_put(slots, cap, key, stored_entry(slots, key, all_ips, ranked_ips, failover_enabled, expires_at)),
            key,
            later,
        ) matches Some(e) && e.ranked_ips == ranked_ips && e.failover_enabled == failover_enabled
            && e.all_ips == all_ips,
{
    law_cache_put_then_lookup(
        slots,
        cap,
        key,
        stored_entry(slots, key, all_ips, ranked_ips, failover_enabled, expires_at),
    );
}

/// Resolution: storing a new resolution keeps the WebSocket reconnect
/// position that the cache held for the key (a fresh position when it held
/// none).
pub proof fn law_refresh_keeps_ws_state(
    slots: CacheSlots,
    cap: nat,
    key: CacheKey,
    all_ips: Seq<IpAddress>,
    ranked_ips: Seq<IpAddress>,
    failover_enabled: bool,
    expires_at: u64,
)
    requires
        slots_wf(slots, cap),
        cap > 0,
    ensures
        slot_lookup(
            slots_put(slots, cap, key, stored_entry(slots, key, all_ips, ranked_ips, failover_enabled, expires_at)),
            key,
        ) matches Some(e) && (e.ws_index, e.ws_retried_same) == match slot_lookup(slots, key) {
            Some(old) => (old.ws_index, old.ws_retried_same),
            None => (0usize, false),
        },
{
    law_cache_put_then_lookup(
        slots,
        cap,
        key,
        stored_entry(slots, key, all_ips, ranked_ips, failover_enabled, expires_at),
    );
}

/// WebSocket state: a recorded reconnect position is what the cache then
/// reports for the key; the addresses and expiry stay as they were.
pub proof fn law_ws_state_round_trip(slots: CacheSlots, cap: nat, key: CacheKey, ws_index: usize, ws_retried_same: bool)
    requires
        slots_wf(slots, cap),
        cap > 0,
        slot_lookup(slots, key) is Some,
    ensures
        slot_lookup(
            slots_put(slots, cap, key, with_ws_state(slot_lookup(slots, key).unwrap(), ws_index, ws_retried_same)),
            key,
        ) matches Some(e) && e.ws_index == ws_index && e.ws_retried_same == ws_retried_same
            && e.ranked_ips == slot_lookup(slots, key).unwrap().ranked_ips
            && e.expires_at == slot_lookup(slots, key).unwrap().expires_at,
{
    law_cache_put_then_lookup(
        slots,
        cap,
        key,
        with_ws_state(slot_lookup(slots, key).unwrap(), ws_index, ws_retried_same),
    );
}

/// A resolution of the shape that resolving produces: one to
/// `max(top_n, 1)` distinct addresses, with failover exactly when there are
/// several.
pub open spec fn well_ranked(ranked: Seq<IpAddress>, failover_enabled: bool, top_n: usize) -> bool {
    &&& 1 <= ranked.len() <= keep_count(top_n)
    &&& distinct_addresses(ranked)
    &&& (failover_enabled <==> ranked.len() > 1)
}

/// Every cached resolution is [`well_ranked`].
pub open spec fn slots_well_ranked(slots: CacheSlots, top_n: usize) -> bool {
    forall|i: int|
        0 <= i < slots.len() ==> well_ranked(
            (#[trigger] slots[i]).1.ranked_ips,
            slots[i].1.failover_enabled,
            top_n,
        )
}

/// An optional entry, when present, is [`well_ranked`].
pub open spec fn entry_well_ranked(e: Option<CacheEntryView>, top_n: usize) -> bool {
    e matches Some(x) ==> well_ranked(x.ranked_ips, x.failover_enabled, top_n)
}

/// A probe ranking that resolving can store: one to `max(top_n, 1)`
/// distinct addresses.
pub open spec fn ranking_fits(ranked: Seq<IpAddress>, top_n: usize) -> bool {
    &&& 1 <= ranked.len() <= keep_count(top_n)
    &&& distinct_addresses(ranked)
}

pub(crate) proof fn lemma_lookup_well_ranked(slots: CacheSlots, key: CacheKey, top_n: usize)
    requires
        slots_well_ranked(slots, top_n),
    ensures
        entry_well_ranked(slot_lookup(slots, key), top_n),
{
    if let Some(i) = slot_index(slots, key) {
        assert(0 <= i < slots.len());
        assert(well_ranked(slots[i].1.ranked_ips, slots[i].1.failover_enabled, top_n));
    }
}

pub(crate) proof fn lemma_put_well_ranked(slots: CacheSlots, cap: nat, key: CacheKey, value: CacheEntryView, top_n: usize)
    requires
        slots_well_ranked(slots, top_n),
        well_ranked(value.ranked_ips, value.failover_enabled, top_n),
        slots.len() <= cap,
        cap > 0,
    ensures
        slots_well_ranked(slots_put(slots, cap, key, value), top_n),
{
    let r = slots_put(slots, cap, key, value);
    assert forall|j: int| 0 <= j < r.len() implies well_ranked(
        (#[trigger] r[j]).1.ranked_ips,
        r[j].1.failover_enabled,
        top_n,
    ) by {
        if j > 0 {
            match slot_index(slots, key) {
                Some(i) => {
                    assert(0 <= i < slots.len());
                    let t = slots.remove(i);
                    assert(r[j] == t[j - 1]);
                    if j - 1 < i {
                        assert(t[j - 1] == slots[j - 1]);
                    } else {
                        assert(t[j - 1] == slots[j]);
                    }
                },
                None => {
                    if slots.len() < cap {
                        assert(r[j] == slots[j - 1]);
                    } else {
                        assert(r[j] == slots.drop_last()[j - 1]);
                        assert(slots.drop_last()[j - 1] == slots[j - 1]);
                    }
                },
            }
        }
    }
}

pub(crate) proof fn lemma_touch_remove_well_ranked(slots: CacheSlots, key: CacheKey, top_n: usize)
    requires
        slots_well_ranked(slots, top_n),
    ensures
        slots_well_ranked(slots_touch(slots, key), top_n),
        slots_well_ranked(slots_remove(slots, key), top_n),
{
    if let Some(i) = slot_index(slots, key) {
        assert(0 <= i < slots.len());
        let t = slots.remove(i);
        assert forall|j: int| 0 <= j < t.len() implies well_ranked(
            (#[trigger] t[j]).1.ranked_ips,
            t[j].1.failover_enabled,
            top_n,
        ) by {
            if j < i {
                assert(t[j] == slots[j]);
            } else {
                assert(t[j] == slots[j + 1]);
            }
        }
        let r = slots_touch(slots, key);
        assert forall|j: int| 0 <= j < r.len() implies well_ranked(
            (#[trigger] r[j]).1.ranked_ips,
            r[j].1.failover_enabled,
            top_n,
        ) by {
            if j == 0 {
                assert(r[0] == slots[i]);
            } else {
                assert(r[j] == t[j - 1]);
            }
        }
    }
}

pub(crate) proof fn lemma_retain_present(s: Seq<IpAddress>, present: Seq<IpAddress>)
    ensures
        retain_present(s, present).len() <= s.len(),
        forall|k: int| 0 <= k < retain_present(s, present).len() ==> s.contains(#[trigger] retain_present(s, present)[k]),
        distinct_addresses(s) ==> distinct_addresses(retain_present(s, present)),
    decreases s.len(),
{
    if s.len() > 0 {
        let t = s.drop_last();
        lemma_retain_present(t, present);
        let rest = retain_present(t, present);
        assert forall|k: int| 0 <= k < rest.len() implies s.contains(#[trigger] rest[k]) by {
            let i = choose|i: int| 0 <= i < t.len() && t[i] == rest[k];
            assert(s[i] == rest[k]);
        }
        assert(s[s.len() - 1] == s.last());
        if present.contains(s.last()) {
            assert(retain_present(s, present) == rest.push(s.last()));
            if distinct_addresses(s) {
                assert(distinct_addresses(t));
                assert forall|k: int| 0 <= k < rest.len() implies #[trigger] rest[k] != s.last() by {
                    let i = choose|i: int| 0 <= i < t.len() && t[i] == rest[k];
                    assert(s[i] == t[i]);
                }
            }
        } else {
            if distinct_addresses(s) {
                assert(distinct_addresses(t));
            }
        }
    }
}

/// Resolution: the ranking after a TCP race over a lookup of distinct
/// addresses fits in the cache (one to `max(top_n, 1)` distinct addresses).
pub proof fn law_race_ranking_fits(fresh: Seq<IpAddress>, winner: IpAddress, top_n: usize)
    requires
        distinct_addresses(fresh),
    ensures
        ranking_fits(first_n(race_ranking(fresh, winner), keep_count(top_n)), top_n),
{
    law_race_ranking_shape(fresh, winner, top_n);
}

/// Resolution: the latency ranking of a non-empty lookup of distinct
/// addresses fits in the cache (one to `max(top_n, 1)` distinct addresses).
pub proof fn law_latency_ranking_fits(
    fresh: Seq<IpAddress>,
    latencies: Seq<u64>,
    bucket_ms: u64,
    top_n: usize,
    ranked: Seq<IpAddress>,
)
    requires
        fresh.len() >= 1,
        fresh.len() == latencies.len(),
        distinct_addresses(fresh),
        is_latency_ranking(fresh, latencies, bucket_ms, top_n, ranked),
    ensures
        ranking_fits(ranked, top_n),
{
    law_latency_ranking_shape(fresh, latencies, bucket_ms, top_n, ranked);
}

/// TTL refresh: the kept ranking is the stale ranking filtered by the fresh
/// lookup, in the stale order; an address is kept exactly when it is in
/// both; and when every ranked address is still present the ranking is kept
/// whole.
pub proof fn law_refresh_keeps_present_in_order(s: Seq<IpAddress>, present: Seq<IpAddress>)
    ensures
        retain_present(s, present) == s.filter(|x: IpAddress| present.contains(x)),
        forall|x: IpAddress| retain_present(s, present).contains(x) <==> s.contains(x) && present.contains(x),
        (forall|i: int| 0 <= i < s.len() ==> present.contains(#[trigger] s[i])) ==> retain_present(s, present) == s,
    decreases s.len(),
{
    reveal(Seq::filter);
    if s.len() > 0 {
        let t = s.drop_last();
        law_refresh_keeps_present_in_order(t, present);
        assert forall|x: IpAddress| retain_present(s, present).contains(x) <==> s.contains(x) && present.contains(x) by {
            if s.contains(x) && present.contains(x) {
                let i = choose|i: int| 0 <= i < s.len() && s[i] == x;
                if i < s.len() - 1 {
                    assert(t[i] == x);
                    let r = retain_present(t, present);
                    let k = choose|k: int| 0 <= k < r.len() && r[k] == x;
                    if present.contains(s.last()) {
                        assert(retain_present(s, present)[k] == x);
                    }
                } else {
                    let r = retain_present(s, present);
                    assert(r[r.len() - 1] == x);
                }
            }
            if retain_present(s, present).contains(x) {
                let r = retain_present(s, present);
                let k = choose|k: int| 0 <= k < r.len() && r[k] == x;
                let rt = retain_present(t, present);
                if k < rt.len() {
                    assert(rt[k] == x);
                    assert(rt.contains(x));
                    let i = choose|i: int| 0 <= i < t.len() && t[i] == x;
                    assert(s[i] == x);
                } else {
                    assert(x == s.last());
                    assert(s[s.len() - 1] == x);
                }
            }
        }
        if forall|i: int| 0 <= i < s.len() ==> present.contains(#[trigger] s[i]) {
            assert(forall|i: int| 0 <= i < t.len() ==> #[trigger] t[i] == s[i]);
            assert(present.contains(s[s.len() - 1]));
            assert(s =~= t.push(s.last()));
        }
    }
}

} // verus!
