use vstd::prelude::*;

use crate::ip::{copy_addresses, IpAddress};

verus! {

/// How many ranked addresses a ranking keeps: `top_n`, but at least one.
pub open spec fn keep_count(top_n: usize) -> int {
    if top_n == 0 {
        1
    } else {
        top_n as int
    }
}

/// The first `n` elements of `s` (all of them when `s` is shorter).
pub open spec fn first_n<A>(s: Seq<A>, n: int) -> Seq<A> {
    if n < s.len() {
        s.take(n)
    } else {
        s
    }
}

/// `s` without the occurrences of `w`, in order.
pub open spec fn without(s: Seq<IpAddress>, w: IpAddress) -> Seq<IpAddress>
    decreases s.len(),
{
    if s.len() == 0 {
        s
    } else if s.last() == w {
        without(s.drop_last(), w)
    } else {
        without(s.drop_last(), w).push(s.last())
    }
}

/// The ranking after a TCP connect race: the winner first, then the other
/// addresses in their given order.
pub open spec fn race_ranking(ips: Seq<IpAddress>, winner: IpAddress) -> Seq<IpAddress> {
    seq![winner].add(without(ips, winner))
}

/// Ranks `ips` after a TCP connect race won by `winner`, keeping the first
/// `max(top_n, 1)` addresses.
pub fn rank_after_race(ips: &Vec<IpAddress>, winner: IpAddress, top_n: usize) -> (r: Vec<IpAddress>)
    ensures
        r@ == first_n(race_ranking(ips@, winner), keep_count(top_n)),
{
    let mut ranked: Vec<IpAddress> = Vec::new();
    ranked.push(winner);
    let mut i: usize = 0;
    while i < ips.len()
        invariant
            i <= ips.len(),
            ranked@ == seq![winner].add(without(ips@.take(i as int), winner)),
        decreases ips.len() - i,
    {
        assert(ips@.take(i + 1).drop_last() =~= ips@.take(i as int));
        assert(ips@.take(i + 1).last() == ips@[i as int]);
        if ips[i] != winner {
            ranked.push(ips[i]);
            assert(ranked@ =~= seq![winner].add(without(ips@.take(i + 1), winner)));
        }
        i = i + 1;
    }
    assert(ips@.take(ips.len() as int) =~= ips@);
    let keep: usize = if top_n == 0 {
        1
    } else {
        top_n
    };
    if keep < ranked.len() {
        ranked.truncate(keep);
        assert(ranked@ =~= first_n(race_ranking(ips@, winner), keep_count(top_n)));
    }
    ranked
}

/// The latency bucket of a connect that took `nanos` nanoseconds: its whole
/// milliseconds rounded up to a multiple of `bucket_ms`.
pub open spec fn latency_bucket(nanos: u64, bucket_ms: u64) -> int {
    let ms = nanos as int / 1_000_000;
    let width = if bucket_ms == 0 {
        1
    } else {
        bucket_ms as int
    };
    ((ms + bucket_ms - 1) / width) * bucket_ms
}

/// Whether the address at position `a` ranks before the one at `b`: a lower
/// bucket first, then a lower latency, then the earlier position.
pub open spec fn ranks_before(latencies: Seq<u64>, bucket_ms: u64, a: int, b: int) -> bool {
    let ba = latency_bucket(latencies[a], bucket_ms);
    let bb = latency_bucket(latencies[b], bucket_ms);
    ||| ba < bb
    ||| ba == bb && latencies[a] < latencies[b]
    ||| ba == bb && latencies[a] == latencies[b] && a < b
}

/// `order` lists every position of `latencies` once, in ranking order.
pub open spec fn is_latency_order(order: Seq<int>, latencies: Seq<u64>, bucket_ms: u64) -> bool {
    &&& order.len() == latencies.len()
    &&& forall|i: int| 0 <= i < order.len() ==> 0 <= #[trigger] order[i] < latencies.len()
    &&& forall|k: int| 0 <= k < latencies.len() ==> #[trigger] order.contains(k)
    &&& forall|i: int, j: int|
        0 <= i < j < order.len() ==> ranks_before(latencies, bucket_ms, #[trigger] order[i], #[trigger] order[j])
}

/// `ranked` is the first `max(top_n, 1)` of `ips` sorted stably by latency
/// bucket, then by latency.
pub open spec fn is_latency_ranking(
    ips: Seq<IpAddress>,
    latencies: Seq<u64>,
    bucket_ms: u64,
    top_n: usize,
    ranked: Seq<IpAddress>,
) -> bool {
    exists|order: Seq<int>|
        #![trigger is_latency_order(order, latencies, bucket_ms)]
        {
            &&& is_latency_order(order, latencies, bucket_ms)
            &&& ranked.len() == first_n(order, keep_count(top_n)).len()
            &&& forall|j: int| 0 <= j < ranked.len() ==> #[trigger] ranked[j] == ips[order[j]]
        }
}

/// Whether bucketing `nanos` with `bucket_ms` stays within `u64` arithmetic.
pub open spec fn bucket_computable(nanos: u64, bucket_ms: u64) -> bool {
    1 <= nanos as int / 1_000_000 + bucket_ms <= u64::MAX
}

/// Whether bucketing a latency of `nanos` with `bucket_ms` stays within
/// `u64` arithmetic (see [`bucket_computable`]).
pub fn latency_bucket_fits(nanos: u64, bucket_ms: u64) -> (r: bool)
    ensures
        r == bucket_computable(nanos, bucket_ms),
{
    let ms = nanos / 1_000_000;
    if bucket_ms == 0 {
        ms >= 1
    } else {
        ms <= u64::MAX - bucket_ms
    }
}

fn compute_bucket(nanos: u64, bucket_ms: u64) -> (r: u64)
    requires
        bucket_computable(nanos, bucket_ms),
    ensures
        r == latency_bucket(nanos, bucket_ms),
{
    let ms = nanos / 1_000_000;
    let x = ms + bucket_ms - 1;
    let width = if bucket_ms == 0 {
        1
    } else {
        bucket_ms
    };
    let q = x / width;
    assert(q * bucket_ms <= x) by (nonlinear_arith)
        requires
            q == x / width,
            width == if bucket_ms == 0 { 1 } else { bucket_ms },
            width > 0,
    ;
    q * bucket_ms
}

/// Ranks `ips` by measured connect latency (`latencies[i]` nanoseconds for
/// `ips[i]`), keeping the first `max(top_n, 1)`; see [`is_latency_ranking`].
pub fn rank_by_latency(ips: &Vec<IpAddress>, latencies: &Vec<u64>, bucket_ms: u64, top_n: usize) -> (r: Vec<
    IpAddress,
>)
    requires
        ips.len() == latencies.len(),
        forall|i: int| 0 <= i < latencies.len() ==> bucket_computable(#[trigger] latencies@[i], bucket_ms),
    ensures
        is_latency_ranking(ips@, latencies@, bucket_ms, top_n, r@),
{
    let n = ips.len();
    let mut buckets: Vec<u64> = Vec::new();
    let mut i: usize = 0;
    while i < n
        invariant
            i <= n,
            n == latencies.len(),
            forall|k: int| 0 <= k < latencies.len() ==> bucket_computable(#[trigger] latencies@[k], bucket_ms),
            buckets@.len() == i,
            forall|k: int| 0 <= k < i ==> buckets@[k] == latency_bucket(#[trigger] latencies@[k], bucket_ms),
        decreases n - i,
    {
        buckets.push(compute_bucket(latencies[i], bucket_ms));
        i = i + 1;
    }
    let mut order: Vec<usize> = Vec::new();
    let mut i: usize = 0;
    while i < n
        invariant
            i <= n,
            n == latencies.len(),
            buckets@.len() == n,
            forall|k: int| 0 <= k < n ==> buckets@[k] == latency_bucket(#[trigger] latencies@[k], bucket_ms),
            order@.len() == i,
            forall|a: int| 0 <= a < order@.len() ==> #[trigger] order@[a] < i,
            forall|k: int| 0 <= k < i ==> #[trigger] order@.contains(k as usize),
            forall|a: int, b: int|
                0 <= a < b < order@.len() ==> ranks_before(
                    latencies@,
                    bucket_ms,
                    #[trigger] order@[a] as int,
                    #[trigger] order@[b] as int,
                ),
        decreases n - i,
    {
        let bi = buckets[i];
        let li = latencies[i];
        let mut p: usize = 0;
        while p < order.len() && !(bi < buckets[order[p]] || (bi == buckets[order[p]] && li < latencies[order[p]]))
            invariant
                p <= order@.len(),
                i < n,
                n == latencies.len(),
                buckets@.len() == n,
                bi == buckets@[i as int],
                li == latencies@[i as int],
                forall|k: int| 0 <= k < n ==> buckets@[k] == latency_bucket(#[trigger] latencies@[k], bucket_ms),
                forall|a: int| 0 <= a < order@.len() ==> #[trigger] order@[a] < i,
                forall|a: int| 0 <= a < p ==> ranks_before(latencies@, bucket_ms, #[trigger] order@[a] as int, i as int),
            decreases order@.len() - p,
        {
            p = p + 1;
        }
        let ghost old_order = order@;
        proof {
            if p < old_order.len() {
                assert(ranks_before(latencies@, bucket_ms, i as int, old_order[p as int] as int));
            }
        }
        order.insert(p, i);
        proof {
            assert forall|a: int, b: int| 0 <= a < b < order@.len() implies ranks_before(
                latencies@,
                bucket_ms,
                #[trigger] order@[a] as int,
                #[trigger] order@[b] as int,
            ) by {
                if b < p {
                    assert(order@[a] == old_order[a] && order@[b] == old_order[b]);
                } else if b == p {
                    assert(order@[a] == old_order[a]);
                } else if a == p {
                    assert(order@[b] == old_order[b - 1]);
                    if b - 1 > p {
                        assert(ranks_before(latencies@, bucket_ms, old_order[p as int] as int, old_order[b - 1] as int));
                    }
                } else if a < p {
                    assert(order@[a] == old_order[a] && order@[b] == old_order[b - 1]);
                } else {
                    assert(order@[a] == old_order[a - 1] && order@[b] == old_order[b - 1]);
                }
            }
            assert forall|k: int| 0 <= k < i + 1 implies #[trigger] order@.contains(k as usize) by {
                if k == i {
                    assert(order@[p as int] == i);
                } else {
                    assert(old_order.contains(k as usize));
                    let a = choose|a: int| 0 <= a < old_order.len() && old_order[a] == k as usize;
                    if a < p {
                        assert(order@[a] == k as usize);
                    } else {
                        assert(order@[a + 1] == k as usize);
                    }
                }
            }
        }
        i = i + 1;
    }
    let keep: usize = if top_n == 0 {
        1
    } else {
        top_n
    };
    let count = if keep < n {
        keep
    } else {
        n
    };
    let mut ranked: Vec<IpAddress> = Vec::new();
    let mut j: usize = 0;
    while j < count
        invariant
            j <= count <= n,
            n == ips.len(),
            order@.len() == n,
            forall|a: int| 0 <= a < n ==> #[trigger] order@[a] < n,
            ranked@.len() == j,
            forall|a: int| 0 <= a < j ==> #[trigger] ranked@[a] == ips@[order@[a] as int],
        decreases count - j,
    {
        ranked.push(ips[order[j]]);
        j = j + 1;
    }
    let ghost ord = order@.map_values(|x: usize| x as int);
    proof {
        assert forall|k: int| 0 <= k < latencies@.len() implies #[trigger] ord.contains(k) by {
            assert(order@.contains(k as usize));
            let a = choose|a: int| 0 <= a < order@.len() && order@[a] == k as usize;
            assert(ord[a] == k);
        }
        assert forall|a: int, b: int| 0 <= a < b < ord.len() implies ranks_before(
            latencies@,
            bucket_ms,
            #[trigger] ord[a],
            #[trigger] ord[b],
        ) by {
            assert(ranks_before(latencies@, bucket_ms, order@[a] as int, order@[b] as int));
        }
        assert(is_latency_order(ord, latencies@, bucket_ms));
        assert(ranked@.len() == first_n(ord, keep_count(top_n)).len());
    }
    ranked
}

/// What a ranking needs next.
pub enum ProbeStep {
    /// The ranking is done: these addresses, best first.
    Done(Vec<IpAddress>),
    /// Race TCP connects to all addresses and report the first to connect.
    RaceConnect,
    /// Measure the connect latency of each address and report them.
    MeasureLatencies,
}

/// The first step of ranking `ips`: a single address (or none) needs no
/// probe; otherwise race the connects when `tcp_race` is on, else measure.
pub fn probe_start(ips: &Vec<IpAddress>, tcp_race: bool) -> (r: ProbeStep)
    ensures
        ips@.len() <= 1 ==> (r matches ProbeStep::Done(v) && v@ == ips@),
        ips@.len() > 1 && tcp_race ==> r is RaceConnect,
        ips@.len() > 1 && !tcp_race ==> r is MeasureLatencies,
{
    if ips.len() <= 1 {
        ProbeStep::Done(copy_addresses(ips))
    } else if tcp_race {
        ProbeStep::RaceConnect
    } else {
        ProbeStep::MeasureLatencies
    }
}

/// The step after a TCP connect race: the race ranking when an address
/// connected in time, else a latency measurement.
pub fn probe_after_race(ips: &Vec<IpAddress>, winner: Option<IpAddress>, top_n: usize) -> (r: ProbeStep)
    ensures
        winner matches Some(w) ==> (r matches ProbeStep::Done(v) && v@ == first_n(
            race_ranking(ips@, w),
            keep_count(top_n),
        )),
        winner is None ==> r is MeasureLatencies,
{
    match winner {
        Some(w) => ProbeStep::Done(rank_after_race(ips, w, top_n)),
        None => ProbeStep::MeasureLatencies,
    }
}

/// Whether no address occurs twice in `s`.
pub open spec fn distinct_addresses(s: Seq<IpAddress>) -> bool {
    forall|k: int, l: int| 0 <= k < l < s.len() ==> s[k] != s[l]
}

/// Ranking by latency: the ranking keeps `max(top_n, 1)` addresses (all,
/// when there are fewer), each one of the probed addresses, none twice when
/// the probed addresses are distinct.
pub proof fn law_latency_ranking_shape(
    ips: Seq<IpAddress>,
    latencies: Seq<u64>,
    bucket_ms: u64,
    top_n: usize,
    ranked: Seq<IpAddress>,
)
    requires
        ips.len() == latencies.len(),
        is_latency_ranking(ips, latencies, bucket_ms, top_n, ranked),
    ensures
        ranked.len() == if keep_count(top_n) < ips.len() { keep_count(top_n) } else { ips.len() as int },
        forall|k: int| 0 <= k < ranked.len() ==> ips.contains(#[trigger] ranked[k]),
        distinct_addresses(ips) ==> distinct_addresses(ranked),
{
    let order = choose|order: Seq<int>|
        #![trigger is_latency_order(order, latencies, bucket_ms)]
        {
            &&& is_latency_order(order, latencies, bucket_ms)
            &&& ranked.len() == first_n(order, keep_count(top_n)).len()
            &&& forall|j: int| 0 <= j < ranked.len() ==> #[trigger] ranked[j] == ips[order[j]]
        };
    assert forall|k: int| 0 <= k < ranked.len() implies ips.contains(#[trigger] ranked[k]) by {
        assert(0 <= order[k] < ips.len());
        assert(ips[order[k]] == ranked[k]);
    }
    if distinct_addresses(ips) {
        assert forall|k: int, l: int| 0 <= k < l < ranked.len() implies ranked[k] != ranked[l] by {
            assert(ranks_before(latencies, bucket_ms, order[k], order[l]));
            assert(order[k] != order[l]);
            assert(0 <= order[k] < ips.len() && 0 <= order[l] < ips.len());
            if order[k] < order[l] {
                assert(ips[order[k]] != ips[order[l]]);
            } else {
                assert(ips[order[l]] != ips[order[k]]);
            }
        }
    }
}

proof fn lemma_without(s: Seq<IpAddress>, w: IpAddress)
    ensures
        forall|k: int| 0 <= k < without(s, w).len() ==> #[trigger] without(s, w)[k] != w && s.contains(without(s, w)[k]),
        distinct_addresses(s) ==> distinct_addresses(without(s, w)),
    decreases s.len(),
{
    if s.len() > 0 {
        let t = s.drop_last();
        lemma_without(t, w);
        let rest = without(t, w);
        assert forall|k: int| 0 <= k < rest.len() implies s.contains(#[trigger] rest[k]) by {
            let i = choose|i: int| 0 <= i < t.len() && t[i] == rest[k];
            assert(s[i] == rest[k]);
        }
        if s.last() != w {
            assert(without(s, w) == rest.push(s.last()));
            assert(s[s.len() - 1] == s.last());
            if distinct_addresses(s) {
                assert(distinct_addresses(t));
                assert forall|k: int| 0 <= k < rest.len() implies #[trigger] rest[k] != s.last() by {
                    let i = choose|i: int| 0 <= i < t.len() && t[i] == rest[k];
                    assert(s[i] == t[i]);
                }
            }
        } else {
            if distinct_addresses(s) {
                assert(distinct_addresses(t));
            }
        }
    }
}

/// Ranking by TCP race: the winner comes first, every other ranked address
/// is one of the probed addresses, and none occurs twice when the probed
/// addresses are distinct.
pub proof fn law_race_ranking_shape(ips: Seq<IpAddress>, winner: IpAddress, top_n: usize)
    ensures
        first_n(race_ranking(ips, winner), keep_count(top_n))[0] == winner,
        forall|k: int|
            1 <= k < first_n(race_ranking(ips, winner), keep_count(top_n)).len() ==> ips.contains(
                #[trigger] first_n(race_ranking(ips, winner), keep_count(top_n))[k],
            ),
        distinct_addresses(ips) ==> distinct_addresses(first_n(race_ranking(ips, winner), keep_count(top_n))),
{
    lemma_without(ips, winner);
    let full = race_ranking(ips, winner);
    let r = first_n(full, keep_count(top_n));
    assert forall|k: int| 0 <= k < r.len() implies #[trigger] r[k] == full[k] by {}
    assert forall|k: int| 1 <= k < full.len() implies #[trigger] full[k] == without(ips, winner)[k - 1] by {}
    assert forall|k: int| 1 <= k < r.len() implies ips.contains(#[trigger] r[k]) by {
        assert(r[k] == without(ips, winner)[k - 1]);
    }
    if distinct_addresses(ips) {
        assert forall|k: int, l: int| 0 <= k < l < r.len() implies r[k] != r[l] by {
            assert(r[l] == without(ips, winner)[l - 1]);
            if k > 0 {
                assert(r[k] == without(ips, winner)[k - 1]);
            }
        }
    }
}

/// Latency buckets: with a bucket width, the bucket of a latency is the
/// smallest multiple of the width that is at least the latency's whole
/// milliseconds (counted in full, seconds included).
pub proof fn law_latency_bucket_rounds_up(nanos: u64, bucket_ms: u64)
    requires
        bucket_ms > 0,
    ensures
        latency_bucket(nanos, bucket_ms) % (bucket_ms as int) == 0,
        nanos as int / 1_000_000 <= latency_bucket(nanos, bucket_ms) < nanos as int / 1_000_000 + bucket_ms,
{
    let ms = nanos as int / 1_000_000;
    let b = bucket_ms as int;
    let x = ms + b - 1;
    let q = x / b;
    assert(latency_bucket(nanos, bucket_ms) == q * b);
    vstd::arithmetic::div_mod::lemma_fundamental_div_mod(x, b);
    vstd::arithmetic::div_mod::lemma_mod_bound(x, b);
    vstd::arithmetic::div_mod::lemma_mod_multiples_basic(q, b);
    assert(b * q == q * b) by (nonlinear_arith);
}

/// Latency buckets: a longer latency never gets a lower bucket.
pub proof fn law_latency_bucket_monotone(a: u64, b: u64, bucket_ms: u64)
    requires
        a <= b,
    ensures
        latency_bucket(a, bucket_ms) <= latency_bucket(b, bucket_ms),
{
    let w = if bucket_ms == 0 { 1int } else { bucket_ms as int };
    vstd::arithmetic::div_mod::lemma_div_is_ordered(a as int, b as int, 1_000_000);
    let xa = a as int / 1_000_000 + bucket_ms - 1;
    let xb = b as int / 1_000_000 + bucket_ms - 1;
    vstd::arithmetic::div_mod::lemma_div_is_ordered(xa, xb, w);
    vstd::arithmetic::mul::lemma_mul_inequality(xa / w, xb / w, bucket_ms as int);
}

/// Latency ranking: an address with a strictly lower latency ranks before
/// one with a higher latency.
pub proof fn law_latency_ranking_monotone(latencies: Seq<u64>, bucket_ms: u64, a: int, b: int)
    requires
        0 <= a < latencies.len(),
        0 <= b < latencies.len(),
        latencies[a] < latencies[b],
    ensures
        ranks_before(latencies, bucket_ms, a, b),
        !ranks_before(latencies, bucket_ms, b, a),
{
    law_latency_bucket_monotone(latencies[a], latencies[b], bucket_ms);
}

/// Latency ranking: in the ranking order, every address comes before each
/// address with a strictly higher latency.
pub proof fn law_latency_order_faster_first(order: Seq<int>, latencies: Seq<u64>, bucket_ms: u64)
    requires
        is_latency_order(order, latencies, bucket_ms),
    ensures
        forall|i: int, j: int|
            0 <= i < order.len() && 0 <= j < order.len() && latencies[order[i]] < latencies[order[j]] ==> i < j,
{
    assert forall|i: int, j: int|
        0 <= i < order.len() && 0 <= j < order.len() && latencies[order[i]] < latencies[order[j]] implies i < j by {
        law_latency_ranking_monotone(latencies, bucket_ms, order[i], order[j]);
        if j < i {
            assert(ranks_before(latencies, bucket_ms, order[j], order[i]));
        }
    }
}

} // verus!
