use vstd::prelude::*;

use lru::LruCache;

use crate::ip::{copy_addresses, IpAddress};

verus! {

/// A host and port, the key under which resolutions are cached.
#[derive(Clone, Debug, PartialEq, Eq, Hash)]
pub struct HostPort {
    pub host: String,
    pub port: u16,
}

/// What the cache keeps for one host and port. Times are milliseconds on the
/// caller's monotonic clock.
#[derive(Clone, Debug)]
pub struct CacheEntry {
    /// Every address the last lookup returned.
    pub all_ips: Vec<IpAddress>,
    /// The addresses to use, best first.
    pub ranked_ips: Vec<IpAddress>,
    /// The entry is fresh strictly before this instant.
    pub expires_at: u64,
    /// WebSocket reconnect position in `ranked_ips`.
    pub ws_index: usize,
    /// Whether the current WebSocket address has had its one retry.
    pub ws_retried_same: bool,
    /// Whether callers should fail over between `ranked_ips`.
    pub failover_enabled: bool,
}

/// The mathematical content of a [`CacheEntry`].
pub struct CacheEntryView {
    pub all_ips: Seq<IpAddress>,
    pub ranked_ips: Seq<IpAddress>,
    pub expires_at: u64,
    pub ws_index: usize,
    pub ws_retried_same: bool,
    pub failover_enabled: bool,
}

impl View for CacheEntry {
    type V = CacheEntryView;

    open spec fn view(&self) -> CacheEntryView {
        CacheEntryView {
            all_ips: self.all_ips@,
            ranked_ips: self.ranked_ips@,
            expires_at: self.expires_at,
            ws_index: self.ws_index,
            ws_retried_same: self.ws_retried_same,
            failover_enabled: self.failover_enabled,
        }
    }
}

impl CacheEntry {
    /// An independent copy of this entry.
    pub fn duplicate(&self) -> (r: CacheEntry)
        ensures
            r@ == self@,
    {
        CacheEntry {
            all_ips: copy_addresses(&self.all_ips),
            ranked_ips: copy_addresses(&self.ranked_ips),
            expires_at: self.expires_at,
            ws_index: self.ws_index,
            ws_retried_same: self.ws_retried_same,
            failover_enabled: self.failover_enabled,
        }
    }
}

/// The key of a cache slot, as a value.
pub type CacheKey = (Seq<char>, u16);

/// The cached slots in recency order, most recently used first.
pub type CacheSlots = Seq<(CacheKey, CacheEntryView)>;

#[verifier::external_type_specification]
#[verifier::external_body]
#[verifier::reject_recursive_types(K)]
#[verifier::reject_recursive_types(V)]
#[verifier::reject_recursive_types(S)]
pub struct ExLruCache<K, V, S = lru::DefaultHasher>(LruCache<K, V, S>);

#[verifier::external_type_specification]
#[verifier::external_body]
pub struct ExLruDefaultHasher(lru::DefaultHasher);

/// The entries of an `lru::LruCache`, most recently used first.
pub uninterp spec fn lru_slots(cache: LruCache<(String, u16), CacheEntry>) -> CacheSlots;

/// The capacity that an `lru::LruCache` was made with.
pub uninterp spec fn lru_capacity(cache: LruCache<(String, u16), CacheEntry>) -> nat;

/// The position of `key` among `slots`, if it is there.
pub open spec fn slot_index(slots: CacheSlots, key: CacheKey) -> Option<int> {
    if exists|i: int| 0 <= i < slots.len() && (#[trigger] slots[i]).0 == key {
        Some(choose|i: int| 0 <= i < slots.len() && (#[trigger] slots[i]).0 == key)
    } else {
        None
    }
}

/// The entry stored under `key`, if any.
pub open spec fn slot_lookup(slots: CacheSlots, key: CacheKey) -> Option<CacheEntryView> {
    match slot_index(slots, key) {
        Some(i) => Some(slots[i].1),
        None => None,
    }
}

/// No key occurs twice and there are at most `cap` slots.
pub open spec fn slots_wf(slots: CacheSlots, cap: nat) -> bool {
    &&& slots.len() <= cap
    &&& keys_distinct(slots)
}

/// `slots` after reading `key`: its slot moves to the front.
pub open spec fn slots_touch(slots: CacheSlots, key: CacheKey) -> CacheSlots {
    match slot_index(slots, key) {
        Some(i) => seq![slots[i]].add(slots.remove(i)),
        None => slots,
    }
}

/// `slots` after storing `value` under `key` in a cache of capacity `cap`:
/// the new slot goes to the front; an existing slot for the key is replaced,
/// and when a new key finds the cache full the least recently used slot
/// (the last) leaves.
pub open spec fn slots_put(slots: CacheSlots, cap: nat, key: CacheKey, value: CacheEntryView) -> CacheSlots {
    match slot_index(slots, key) {
        Some(i) => seq![(key, value)].add(slots.remove(i)),
        None => if slots.len() < cap {
            seq![(key, value)].add(slots)
        } else {
            seq![(key, value)].add(slots.drop_last())
        },
    }
}

/// `slots` without the slot of `key`.
pub open spec fn slots_remove(slots: CacheSlots, key: CacheKey) -> CacheSlots {
    match slot_index(slots, key) {
        Some(i) => slots.remove(i),
        None => slots,
    }
}

/// Calls `lru::LruCache::new` with capacity `cap` (as a `NonZeroUsize`,
/// which `cap > 0` makes possible): the new cache is empty and has that
/// capacity.
#[verifier::external_body]
fn lru_new(cap: usize) -> (r: LruCache<(String, u16), CacheEntry>)
    requires
        cap > 0,
    ensures
        lru_slots(r) == Seq::<(CacheKey, CacheEntryView)>::empty(),
        lru_capacity(r) == cap,
{
    LruCache::new(std::num::NonZeroUsize::new(cap).unwrap())
}

/// Calls `lru::LruCache::peek`: the entry under `key`, if any; the recency
/// order is left as it was.
#[verifier::external_body]
fn lru_peek<'a>(cache: &'a LruCache<(String, u16), CacheEntry>, key: &(String, u16)) -> (r: Option<
    &'a CacheEntry,
>)
    ensures
        match slot_lookup(lru_slots(*cache), (key.0@, key.1)) {
            Some(e) => r matches Some(v) && v@ == e,
            None => r is None,
        },
{
    cache.peek(key)
}

/// Calls `lru::LruCache::get`: the entry under `key`, if any, whose slot
/// becomes the most recently used.
#[verifier::external_body]
fn lru_get<'a>(cache: &'a mut LruCache<(String, u16), CacheEntry>, key: &(String, u16)) -> (r:
    Option<&'a CacheEntry>)
    ensures
        slots_wf(lru_slots(*final(cache)), lru_capacity(*final(cache))),
        lru_capacity(*final(cache)) == lru_capacity(*old(cache)),
        lru_slots(*final(cache)) == slots_touch(lru_slots(*old(cache)), (key.0@, key.1)),
        match slot_lookup(lru_slots(*old(cache)), (key.0@, key.1)) {
            Some(e) => r matches Some(v) && v@ == e,
            None => r is None,
        },
{
    cache.get(key)
}

/// Calls `lru::LruCache::put`: stores `value` under `key` as the most
/// recently used slot, replacing an older value for the key, or evicting the
/// least recently used slot when a new key finds the cache full; returns the
/// value it replaced.
#[verifier::external_body]
fn lru_put(cache: &mut LruCache<(String, u16), CacheEntry>, key: (String, u16), value: CacheEntry) -> (r:
    Option<CacheEntry>)
    ensures
        slots_wf(lru_slots(*final(cache)), lru_capacity(*final(cache))),
        lru_capacity(*final(cache)) == lru_capacity(*old(cache)),
        lru_slots(*final(cache)) == slots_put(
            lru_slots(*old(cache)),
            lru_capacity(*old(cache)),
            (key.0@, key.1),
            value@,
        ),
        match slot_lookup(lru_slots(*old(cache)), (key.0@, key.1)) {
            Some(e) => r matches Some(v) && v@ == e,
            None => r is None,
        },
{
    cache.put(key, value)
}

/// Calls `lru::LruCache::pop`: removes the slot of `key`, if any, and
/// returns its value.
#[verifier::external_body]
fn lru_pop(cache: &mut LruCache<(String, u16), CacheEntry>, key: &(String, u16)) -> (r: Option<
    CacheEntry,
>)
    ensures
        slots_wf(lru_slots(*final(cache)), lru_capacity(*final(cache))),
        lru_capacity(*final(cache)) == lru_capacity(*old(cache)),
        lru_slots(*final(cache)) == slots_remove(lru_slots(*old(cache)), (key.0@, key.1)),
        match slot_lookup(lru_slots(*old(cache)), (key.0@, key.1)) {
            Some(e) => r matches Some(v) && v@ == e,
            None => r is None,
        },
{
    cache.pop(key)
}

/// Calls `lru::LruCache::clear`: every slot leaves; the capacity stays.
#[verifier::external_body]
fn lru_clear(cache: &mut LruCache<(String, u16), CacheEntry>)
    ensures
        lru_capacity(*final(cache)) == lru_capacity(*old(cache)),
        lru_slots(*final(cache)) == Seq::<(CacheKey, CacheEntryView)>::empty(),
{
    cache.clear()
}

/// The entry under `key` while it is still fresh at `now`.
pub open spec fn fresh_lookup(slots: CacheSlots, key: CacheKey, now: u64) -> Option<CacheEntryView> {
    match slot_lookup(slots, key) {
        Some(e) => if now < e.expires_at {
            Some(e)
        } else {
            None
        },
        None => None,
    }
}

/// The entry that a store of a new resolution for `key` writes: the given
/// addresses and failover flag, expiring at `expires_at`, with the WebSocket
/// reconnect position carried over from the entry it replaces (or a fresh
/// position when there is none).
pub open spec fn stored_entry(
    slots: CacheSlots,
    key: CacheKey,
    all_ips: Seq<IpAddress>,
    ranked_ips: Seq<IpAddress>,
    failover_enabled: bool,
    expires_at: u64,
) -> CacheEntryView {
    let (ws_index, ws_retried_same) = match slot_lookup(slots, key) {
        Some(e) => (e.ws_index, e.ws_retried_same),
        None => (0usize, false),
    };
    CacheEntryView { all_ips, ranked_ips, expires_at, ws_index, ws_retried_same, failover_enabled }
}

/// `e` with another WebSocket reconnect position.
pub open spec fn with_ws_state(e: CacheEntryView, ws_index: usize, ws_retried_same: bool) -> CacheEntryView {
    CacheEntryView { ws_index, ws_retried_same, ..e }
}

/// The instant `ttl_ms` after `now`, or the end of the clock's range.
pub open spec fn expiry(now: u64, ttl_ms: u64) -> u64 {
    if now + ttl_ms > u64::MAX {
        u64::MAX
    } else {
        (now + ttl_ms) as u64
    }
}

/// A TTL-aware LRU cache of resolutions, keyed by host and port.
pub struct DnsCache {
    inner: LruCache<(String, u16), CacheEntry>,
}

impl DnsCache {
    /// The cached slots, most recently used first.
    pub closed spec fn slots(&self) -> CacheSlots {
        lru_slots(self.inner)
    }

    /// The number of slots the cache holds at most.
    pub closed spec fn capacity(&self) -> nat {
        lru_capacity(self.inner)
    }

    /// Keys are distinct, and there are at most `capacity` of them.
    pub open spec fn wf(&self) -> bool {
        &&& slots_wf(self.slots(), self.capacity())
        &&& self.capacity() > 0
    }

    /// An empty cache for `capacity` entries (at least one).
    pub fn new(capacity: usize) -> (r: Self)
        ensures
            r.wf(),
            r.slots() == Seq::<(CacheKey, CacheEntryView)>::empty(),
            r.capacity() == if capacity == 0 { 1 } else { capacity as nat },
    {
        let cap = if capacity < 1 { 1 } else { capacity };
        DnsCache { inner: lru_new(cap) }
    }

    /// The entry for `host:port` if it is still fresh at `now`; a hit makes
    /// the entry the most recently used.
    pub fn get(&mut self, host: &str, port: u16, now: u64) -> (r: Option<CacheEntry>)
        requires
            old(self).wf(),
        ensures
            final(self).wf(),
            final(self).capacity() == old(self).capacity(),
            final(self).slots() == slots_touch(old(self).slots(), (host@, port)),
            match fresh_lookup(old(self).slots(), (host@, port), now) {
                Some(e) => r matches Some(v) && v@ == e,
                None => r is None,
            },
    {
        let key = (String::from_str(host), port);
        let found = lru_get(&mut self.inner, &key);
        match found {
            Some(entry) => {
                if entry.expires_at <= now {
                    None
                } else {
                    Some(entry.duplicate())
                }
            },
            None => None,
        }
    }

    /// The entry for `host:port` whether fresh or expired; the recency order
    /// is left as it was.
    pub fn get_stale(&self, host: &str, port: u16) -> (r: Option<CacheEntry>)
        ensures
            match slot_lookup(self.slots(), (host@, port)) {
                Some(e) => r matches Some(v) && v@ == e,
                None => r is None,
            },
    {
        let key = (String::from_str(host), port);
        match lru_peek(&self.inner, &key) {
            Some(entry) => Some(entry.duplicate()),
            None => None,
        }
    }

    /// Stores a resolution for `host:port` that expires `ttl_ms` after `now`
    /// (at the end of the clock's range when that is later), keeping the
    /// WebSocket reconnect position of the entry it replaces.
    pub fn put(
        &mut self,
        host: &str,
        port: u16,
        all_ips: Vec<IpAddress>,
        ranked_ips: Vec<IpAddress>,
        failover_enabled: bool,
        ttl_ms: u64,
        now: u64,
    )
        requires
            old(self).wf(),
        ensures
            final(self).wf(),
            final(self).capacity() == old(self).capacity(),
            final(self).slots() == slots_put(
                old(self).slots(),
                old(self).capacity(),
                (host@, port),
                stored_entry(
                    old(self).slots(),
                    (host@, port),
                    all_ips@,
                    ranked_ips@,
                    failover_enabled,
                    expiry(now, ttl_ms),
                ),
            ),
    {
        let key = (String::from_str(host), port);
        let (ws_index, ws_retried_same) = match lru_peek(&self.inner, &key) {
            Some(e) => (e.ws_index, e.ws_retried_same),
            None => (0, false),
        };
        let entry = CacheEntry {
            all_ips,
            ranked_ips,
            expires_at: now.saturating_add(ttl_ms),
            ws_index,
            ws_retried_same,
            failover_enabled,
        };
        let _ = lru_put(&mut self.inner, key, entry);
    }

    /// Records the WebSocket reconnect position for `host:port`, when an
    /// entry exists; that entry becomes the most recently used.
    pub fn update_ws_state(&mut self, host: &str, port: u16, ws_index: usize, ws_retried_same: bool)
        requires
            old(self).wf(),
        ensures
            final(self).wf(),
            final(self).capacity() == old(self).capacity(),
            final(self).slots() == match slot_lookup(old(self).slots(), (host@, port)) {
                Some(e) => slots_put(
                    old(self).slots(),
                    old(self).capacity(),
                    (host@, port),
                    with_ws_state(e, ws_index, ws_retried_same),
                ),
                None => old(self).slots(),
            },
    {
        let key = (String::from_str(host), port);
        let current = match lru_peek(&self.inner, &key) {
            Some(e) => Some(e.duplicate()),
            None => None,
        };
        if let Some(mut entry) = current {
            entry.ws_index = ws_index;
            entry.ws_retried_same = ws_retried_same;
            let _ = lru_put(&mut self.inner, key, entry);
        }
    }

    /// Drops the entry for `host:port`.
    pub fn invalidate(&mut self, host: &str, port: u16)
        requires
            old(self).wf(),
        ensures
            final(self).wf(),
            final(self).capacity() == old(self).capacity(),
            final(self).slots() == slots_remove(old(self).slots(), (host@, port)),
    {
        let key = (String::from_str(host), port);
        let _ = lru_pop(&mut self.inner, &key);
    }

    /// Drops every entry.
    pub fn clear(&mut self)
        requires
            old(self).wf(),
        ensures
            final(self).wf(),
            final(self).capacity() == old(self).capacity(),
            final(self).slots() == Seq::<(CacheKey, CacheEntryView)>::empty(),
    {
        lru_clear(&mut self.inner);
    }
}

/// No key occurs twice among `slots`.
pub open spec fn keys_distinct(slots: CacheSlots) -> bool {
    forall|i: int, j: int|
        0 <= i < slots.len() && 0 <= j < slots.len() && i != j ==> (#[trigger] slots[i]).0 != (
        #[trigger] slots[j]).0
}

proof fn lemma_index_is(slots: CacheSlots, key: CacheKey, i: int)
    requires
        keys_distinct(slots),
        0 <= i < slots.len(),
        slots[i].0 == key,
    ensures
        slot_index(slots, key) == Some(i),
        slot_lookup(slots, key) == Some(slots[i].1),
{
    assert(exists|j: int| 0 <= j < slots.len() && (#[trigger] slots[j]).0 == key);
    let j = choose|j: int| 0 <= j < slots.len() && (#[trigger] slots[j]).0 == key;
    assert(j == i);
}

proof fn lemma_absent(slots: CacheSlots, key: CacheKey)
    requires
        forall|i: int| 0 <= i < slots.len() ==> (#[trigger] slots[i]).0 != key,
    ensures
        slot_index(slots, key) is None,
        slot_lookup(slots, key) is None,
{
}

proof fn lemma_lookup_matches(slots: CacheSlots, key: CacheKey)
    requires
        keys_distinct(slots),
    ensures
        slot_index(slots, key) matches Some(i) ==> 0 <= i < slots.len() && slots[i].0 == key,
        slot_index(slots, key) is None ==> forall|i: int|
            0 <= i < slots.len() ==> (#[trigger] slots[i]).0 != key,
{
}

/// Removing the slot at `i` keeps every other key's entry.
proof fn lemma_remove_at(slots: CacheSlots, i: int, other: CacheKey)
    requires
        keys_distinct(slots),
        0 <= i < slots.len(),
    ensures
        keys_distinct(slots.remove(i)),
        forall|j: int| 0 <= j < slots.remove(i).len() ==> (#[trigger] slots.remove(i)[j]).0 != slots[i].0,
        other != slots[i].0 ==> slot_lookup(slots.remove(i), other) == slot_lookup(slots, other),
{
    let t = slots.remove(i);
    assert forall|a: int, b: int| 0 <= a < t.len() && 0 <= b < t.len() && a != b implies (
    #[trigger] t[a]).0 != (#[trigger] t[b]).0 by {
        let a2 = if a < i { a } else { a + 1 };
        let b2 = if b < i { b } else { b + 1 };
        assert(t[a] == slots[a2]);
        assert(t[b] == slots[b2]);
    }
    assert forall|j: int| 0 <= j < t.len() implies (#[trigger] t[j]).0 != slots[i].0 by {
        let j2 = if j < i { j } else { j + 1 };
        assert(t[j] == slots[j2]);
    }
    if other == slots[i].0 {
        return;
    }
    lemma_lookup_matches(slots, other);
    match slot_index(slots, other) {
        Some(k) => {
            assert(k != i);
            let k2 = if k < i { k } else { k - 1 };
            assert(t[k2] == slots[k]);
            lemma_index_is(t, other, k2);
        },
        None => {
            assert forall|j: int| 0 <= j < t.len() implies (#[trigger] t[j]).0 != other by {
                let j2 = if j < i { j } else { j + 1 };
                assert(t[j] == slots[j2]);
            }
            lemma_absent(t, other);
        },
    }
}

/// A slot pushed at the front of slots without its key is found first, and
/// leaves the other keys' entries alone.
proof fn lemma_push_front(rest: CacheSlots, key: CacheKey, value: CacheEntryView, other: CacheKey)
    requires
        keys_distinct(rest),
        forall|j: int| 0 <= j < rest.len() ==> (#[trigger] rest[j]).0 != key,
    ensures
        keys_distinct(seq![(key, value)].add(rest)),
        slot_lookup(seq![(key, value)].add(rest), key) == Some(value),
        other != key ==> slot_lookup(seq![(key, value)].add(rest), other) == slot_lookup(rest, other),
{
    let r = seq![(key, value)].add(rest);
    assert forall|j: int| 0 <= j < rest.len() implies #[trigger] r[j + 1] == rest[j] by {}
    assert forall|a: int, b: int| 0 <= a < r.len() && 0 <= b < r.len() && a != b implies (
    #[trigger] r[a]).0 != (#[trigger] r[b]).0 by {
        if a > 0 {
            assert(r[a] == rest[a - 1]);
        }
        if b > 0 {
            assert(r[b] == rest[b - 1]);
        }
    }
    assert(r[0] == (key, value));
    lemma_index_is(r, key, 0);
    if other != key {
        lemma_lookup_matches(rest, other);
        match slot_index(rest, other) {
            Some(k) => {
                assert(r[k + 1] == rest[k]);
                lemma_index_is(r, other, k + 1);
            },
            None => {
                assert forall|j: int| 0 <= j < r.len() implies (#[trigger] r[j]).0 != other by {
                    if j > 0 {
                        assert(r[j] == rest[j - 1]);
                    }
                }
                lemma_absent(r, other);
            },
        }
    }
}

/// DNS cache: a store is read back. After storing `value` under `key`, the
/// cache holds `value` under `key` and stays well formed (distinct keys, at
/// most `cap` of them).
pub proof fn law_cache_put_then_lookup(slots: CacheSlots, cap: nat, key: CacheKey, value: CacheEntryView)
    requires
        slots_wf(slots, cap),
        cap > 0,
    ensures
        slots_wf(slots_put(slots, cap, key, value), cap),
        slot_lookup(slots_put(slots, cap, key, value), key) == Some(value),
{
    lemma_put_effects(slots, cap, key, value, key);
}

/// DNS cache: a store under one key leaves every other key's entry as it
/// was, except for the least recently used entry, which leaves when a new
/// key finds the cache full.
pub proof fn law_cache_put_keeps_others(
    slots: CacheSlots,
    cap: nat,
    key: CacheKey,
    value: CacheEntryView,
    other: CacheKey,
)
    requires
        slots_wf(slots, cap),
        cap > 0,
        other != key,
    ensures
        (slot_lookup(slots, key) is Some || slots.len() < cap || slots.last().0 != other)
            ==> slot_lookup(slots_put(slots, cap, key, value), other) == slot_lookup(slots, other),
        !(slot_lookup(slots, key) is Some || slots.len() < cap || slots.last().0 != other)
            ==> slot_lookup(slots_put(slots, cap, key, value), other) is None,
{
    lemma_put_effects(slots, cap, key, value, other);
}

proof fn lemma_put_effects(slots: CacheSlots, cap: nat, key: CacheKey, value: CacheEntryView, other: CacheKey)
    requires
        slots_wf(slots, cap),
        cap > 0,
    ensures
        slots_wf(slots_put(slots, cap, key, value), cap),
        slot_lookup(slots_put(slots, cap, key, value), key) == Some(value),
        other != key && (slot_lookup(slots, key) is Some || slots.len() < cap || slots.last().0
            != other) ==> slot_lookup(slots_put(slots, cap, key, value), other) == slot_lookup(
            slots,
            other,
        ),
        other != key && !(slot_lookup(slots, key) is Some || slots.len() < cap || slots.last().0
            != other) ==> slot_lookup(slots_put(slots, cap, key, value), other) is None,
{
    lemma_lookup_matches(slots, key);
    let r = slots_put(slots, cap, key, value);
    match slot_index(slots, key) {
        Some(i) => {
            lemma_remove_at(slots, i, other);
            lemma_push_front(slots.remove(i), key, value, other);
        },
        None => {
            if slots.len() < cap {
                lemma_push_front(slots, key, value, other);
            } else {
                let n = slots.len() as int;
                assert(n > 0);
                assert(slots.drop_last() =~= slots.remove(n - 1));
                lemma_remove_at(slots, n - 1, other);
                if other == slots[n - 1].0 {
                    lemma_index_is(slots, other, n - 1);
                    assert forall|j: int| 0 <= j < slots.remove(n - 1).len() implies (
                    #[trigger] slots.remove(n - 1)[j]).0 != other by {}
                    lemma_absent(slots.remove(n - 1), other);
                }
                assert forall|j: int| 0 <= j < slots.remove(n - 1).len() implies (
                #[trigger] slots.remove(n - 1)[j]).0 != key by {
                    assert(slots.remove(n - 1)[j] == slots[j]);
                }
                lemma_push_front(slots.remove(n - 1), key, value, other);
            }
        },
    }
}

/// DNS cache: after an invalidation the key has no entry, and every other
/// key keeps its entry.
pub proof fn law_cache_remove(slots: CacheSlots, cap: nat, key: CacheKey, other: CacheKey)
    requires
        slots_wf(slots, cap),
    ensures
        slots_wf(slots_remove(slots, key), cap),
        slot_lookup(slots_remove(slots, key), key) is None,
        other != key ==> slot_lookup(slots_remove(slots, key), other) == slot_lookup(slots, other),
{
    lemma_lookup_matches(slots, key);
    match slot_index(slots, key) {
        Some(i) => {
            let t = slots.remove(i);
            lemma_remove_at(slots, i, other);
            lemma_absent(t, key);
        },
        None => {},
    }
}

/// DNS cache: reading an entry only changes the recency order; every key
/// keeps its entry.
pub proof fn law_cache_touch(slots: CacheSlots, cap: nat, key: CacheKey, other: CacheKey)
    requires
        slots_wf(slots, cap),
    ensures
        slots_wf(slots_touch(slots, key), cap),
        slot_lookup(slots_touch(slots, key), other) == slot_lookup(slots, other),
{
    lemma_lookup_matches(slots, key);
    match slot_index(slots, key) {
        Some(i) => {
            lemma_remove_at(slots, i, other);
            lemma_push_front(slots.remove(i), key, slots[i].1, other);
            lemma_index_is(slots, key, i);
        },
        None => {},
    }
}

/// DNS cache: an entry is served fresh strictly before its expiry and not
/// from then on, while a stale read still finds it.
pub proof fn law_cache_expiry(slots: CacheSlots, key: CacheKey, now: u64)
    ensures
        slot_lookup(slots, key) matches Some(e) ==> fresh_lookup(slots, key, now) == if now < e.expires_at {
            Some(e)
        } else {
            None
        },
        slot_lookup(slots, key) is None ==> fresh_lookup(slots, key, now) is None,
{
}

} // verus!
