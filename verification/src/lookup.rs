use vstd::prelude::*;

use crate::error::Error;
use crate::ip::IpAddress;

verus! {

/// Strict lexicographic order of byte strings (a proper prefix comes
/// first), the order of `String`s.
pub open spec fn bytes_lt(a: Seq<u8>, b: Seq<u8>) -> bool
    decreases a.len(),
{
    if a.len() == 0 {
        b.len() > 0
    } else if b.len() == 0 {
        false
    } else if a[0] < b[0] {
        true
    } else if a[0] > b[0] {
        false
    } else {
        bytes_lt(a.drop_first(), b.drop_first())
    }
}

proof fn lemma_bytes_lt_irreflexive(a: Seq<u8>)
    ensures
        !bytes_lt(a, a),
    decreases a.len(),
{
    if a.len() > 0 {
        lemma_bytes_lt_irreflexive(a.drop_first());
    }
}

proof fn lemma_bytes_lt_transitive(a: Seq<u8>, b: Seq<u8>, c: Seq<u8>)
    requires
        bytes_lt(a, b),
        bytes_lt(b, c),
    ensures
        bytes_lt(a, c),
    decreases a.len(),
{
    if a.len() > 0 && b.len() > 0 && c.len() > 0 && a[0] == b[0] && b[0] == c[0] {
        lemma_bytes_lt_transitive(a.drop_first(), b.drop_first(), c.drop_first());
    }
}

proof fn lemma_bytes_lt_total(a: Seq<u8>, b: Seq<u8>)
    ensures
        a == b || bytes_lt(a, b) || bytes_lt(b, a),
    decreases a.len(),
{
    if a.len() > 0 && b.len() > 0 && a[0] == b[0] {
        lemma_bytes_lt_total(a.drop_first(), b.drop_first());
        if a.drop_first() == b.drop_first() {
            assert(a =~= seq![a[0]].add(a.drop_first()));
            assert(b =~= seq![b[0]].add(b.drop_first()));
        }
    } else if a.len() == 0 && b.len() == 0 {
        assert(a =~= b);
    }
}

fn bytes_less(a: &Vec<u8>, b: &Vec<u8>) -> (r: bool)
    ensures
        r == bytes_lt(a@, b@),
{
    let mut i: usize = 0;
    assert(a@.skip(0) =~= a@);
    assert(b@.skip(0) =~= b@);
    while i < a.len() && i < b.len() && a[i] == b[i]
        invariant
            i <= a.len(),
            i <= b.len(),
            bytes_lt(a@, b@) == bytes_lt(a@.skip(i as int), b@.skip(i as int)),
        decreases a.len() - i,
    {
        assert(a@.skip(i as int).drop_first() =~= a@.skip(i + 1));
        assert(b@.skip(i as int).drop_first() =~= b@.skip(i + 1));
        i = i + 1;
    }
    if i == a.len() {
        i < b.len()
    } else if i == b.len() {
        false
    } else {
        a[i] < b[i]
    }
}

/// Whether equal addresses carry equal keys and equal keys belong to
/// equal addresses.
pub open spec fn keys_consistent(found: Seq<(IpAddress, Vec<u8>)>) -> bool {
    forall|i: int, j: int|
        0 <= i < found.len() && 0 <= j < found.len() ==> ((#[trigger] found[i]).0 == (#[trigger] found[j]).0
            <==> found[i].1@ == found[j].1@)
}

/// `picks` chooses positions of `found` whose keys strictly increase, and
/// every address of `found` is among the chosen ones.
pub open spec fn is_sorted_selection(picks: Seq<int>, found: Seq<(IpAddress, Vec<u8>)>) -> bool {
    &&& forall|k: int| 0 <= k < picks.len() ==> 0 <= #[trigger] picks[k] < found.len()
    &&& forall|k: int, l: int|
        0 <= k < l < picks.len() ==> bytes_lt(found[#[trigger] picks[k]].1@, found[#[trigger] picks[l]].1@)
    &&& forall|i: int| 0 <= i < found.len() ==> #[trigger] selects_address(picks, found, found[i].0)
}

/// Whether one of the chosen positions holds address `a`.
pub open spec fn selects_address(picks: Seq<int>, found: Seq<(IpAddress, Vec<u8>)>, a: IpAddress) -> bool {
    exists|k: int| 0 <= k < picks.len() && found[#[trigger] picks[k]].0 == a
}

/// `r` lists the distinct addresses of `found`, ordered by their keys.
pub open spec fn is_sorted_unique(r: Seq<IpAddress>, found: Seq<(IpAddress, Vec<u8>)>) -> bool {
    exists|picks: Seq<int>|
        #![trigger is_sorted_selection(picks, found)]
        {
            &&& is_sorted_selection(picks, found)
            &&& r.len() == picks.len()
            &&& forall|k: int| 0 <= k < r.len() ==> #[trigger] r[k] == found[picks[k]].0
        }
}

spec fn picks_sorted(picks: Seq<usize>, found: Seq<(IpAddress, Vec<u8>)>) -> bool {
    forall|k: int, l: int|
        0 <= k < l < picks.len() ==> bytes_lt(
            found[#[trigger] picks[k] as int].1@,
            found[#[trigger] picks[l] as int].1@,
        )
}

/// Each of the first `n` answers has its address at position `cover[m]`
/// of the selection.
spec fn picks_cover(picks: Seq<usize>, found: Seq<(IpAddress, Vec<u8>)>, cover: Seq<int>, n: int) -> bool {
    &&& cover.len() == n
    &&& forall|m: int|
        0 <= m < n ==> 0 <= #[trigger] cover[m] < picks.len() && found[picks[cover[m]] as int].0 == found[m].0
}

proof fn lemma_insert_sorted(found: Seq<(IpAddress, Vec<u8>)>, old_picks: Seq<usize>, p: int, i: usize)
    requires
        0 <= p <= old_picks.len(),
        i < found.len(),
        forall|k: int| 0 <= k < old_picks.len() ==> #[trigger] old_picks[k] < found.len(),
        picks_sorted(old_picks, found),
        forall|k: int| 0 <= k < p ==> bytes_lt(found[#[trigger] old_picks[k] as int].1@, found[i as int].1@),
        p < old_picks.len() ==> bytes_lt(found[i as int].1@, found[old_picks[p] as int].1@),
    ensures
        picks_sorted(old_picks.insert(p, i), found),
{
    let picks = old_picks.insert(p, i);
    let key = found[i as int].1@;
    assert forall|k: int, l: int| 0 <= k < l < picks.len() implies bytes_lt(
        found[#[trigger] picks[k] as int].1@,
        found[#[trigger] picks[l] as int].1@,
    ) by {
        if l < p {
            assert(picks[k] == old_picks[k] && picks[l] == old_picks[l]);
        } else if l == p {
            assert(picks[k] == old_picks[k]);
        } else if k == p {
            assert(picks[l] == old_picks[l - 1]);
            if l - 1 > p {
                assert(bytes_lt(found[old_picks[p] as int].1@, found[old_picks[l - 1] as int].1@));
                lemma_bytes_lt_transitive(key, found[old_picks[p] as int].1@, found[old_picks[l - 1] as int].1@);
            }
        } else if k < p {
            assert(picks[k] == old_picks[k] && picks[l] == old_picks[l - 1]);
        } else {
            assert(picks[k] == old_picks[k - 1] && picks[l] == old_picks[l - 1]);
            assert(bytes_lt(found[old_picks[k - 1] as int].1@, found[old_picks[l - 1] as int].1@));
        }
    }
}

spec fn shift_cover(cover: Seq<int>, p: int) -> Seq<int> {
    Seq::new(cover.len(), |m: int| if cover[m] >= p { cover[m] + 1 } else { cover[m] })
}

proof fn lemma_insert_covers(found: Seq<(IpAddress, Vec<u8>)>, old_picks: Seq<usize>, cover: Seq<int>, p: int, i: usize)
    requires
        0 <= p <= old_picks.len(),
        i < found.len(),
        picks_cover(old_picks, found, cover, i as int),
    ensures
        picks_cover(old_picks.insert(p, i), found, shift_cover(cover, p).push(p), i + 1),
{
    let picks = old_picks.insert(p, i);
    let c2 = shift_cover(cover, p).push(p);
    assert forall|m: int| 0 <= m < i + 1 implies 0 <= #[trigger] c2[m] < picks.len() && found[picks[c2[m]] as int].0
        == found[m].0 by {
        if m == i {
            assert(picks[p] == i);
        } else {
            assert(0 <= cover[m] < old_picks.len());
            if cover[m] >= p {
                assert(picks[cover[m] + 1] == old_picks[cover[m]]);
            } else {
                assert(picks[cover[m]] == old_picks[cover[m]]);
            }
        }
    }
}

/// The distinct addresses of a DNS answer, ordered by their text (each
/// address comes with the bytes of its text as its key).
pub fn sorted_unique_addresses(found: &Vec<(IpAddress, Vec<u8>)>) -> (r: Vec<IpAddress>)
    requires
        keys_consistent(found@),
    ensures
        is_sorted_unique(r@, found@),
        found@.len() > 0 ==> r@.len() > 0,
{
    let mut picks: Vec<usize> = Vec::new();
    let ghost mut cover: Seq<int> = Seq::empty();
    let mut i: usize = 0;
    while i < found.len()
        invariant
            i <= found.len(),
            keys_consistent(found@),
            forall|k: int| 0 <= k < picks@.len() ==> #[trigger] picks@[k] < i,
            picks_sorted(picks@, found@),
            picks_cover(picks@, found@, cover, i as int),
        decreases found.len() - i,
    {
        let key = &found[i].1;
        let mut p: usize = 0;
        while p < picks.len() && bytes_less(&found[picks[p]].1, key)
            invariant
                p <= picks@.len(),
                i < found.len(),
                key@ == found@[i as int].1@,
                forall|k: int| 0 <= k < picks@.len() ==> #[trigger] picks@[k] < i,
                forall|k: int| 0 <= k < p ==> bytes_lt(found@[#[trigger] picks@[k] as int].1@, key@),
            decreases picks@.len() - p,
        {
            p = p + 1;
        }
        let duplicate = p < picks.len() && !bytes_less(key, &found[picks[p]].1);
        let ghost old_picks = picks@;
        if duplicate {
            proof {
                lemma_bytes_lt_total(found@[old_picks[p as int] as int].1@, key@);
                assert(found@[old_picks[p as int] as int].0 == found@[i as int].0);
                cover = cover.push(p as int);
            }
        } else {
            proof {
                if p < old_picks.len() {
                    lemma_bytes_lt_total(found@[old_picks[p as int] as int].1@, key@);
                }
                lemma_insert_sorted(found@, old_picks, p as int, i);
                lemma_insert_covers(found@, old_picks, cover, p as int, i);
                cover = shift_cover(cover, p as int).push(p as int);
            }
            picks.insert(p, i);
            assert(picks@ == old_picks.insert(p as int, i));
        }
        i = i + 1;
    }
    let mut r: Vec<IpAddress> = Vec::new();
    let mut j: usize = 0;
    while j < picks.len()
        invariant
            j <= picks@.len(),
            forall|k: int| 0 <= k < picks@.len() ==> #[trigger] picks@[k] < found@.len(),
            r@.len() == j,
            forall|k: int| 0 <= k < j ==> #[trigger] r@[k] == found@[picks@[k] as int].0,
        decreases picks@.len() - j,
    {
        r.push(found[picks[j]].0);
        j = j + 1;
    }
    proof {
        lemma_selection(found@, picks@, cover, r@);
        if found@.len() > 0 {
            assert(0 <= cover[0] < picks@.len());
        }
    }
    r
}

proof fn lemma_selection(found: Seq<(IpAddress, Vec<u8>)>, picks: Seq<usize>, cover: Seq<int>, r: Seq<IpAddress>)
    requires
        forall|k: int| 0 <= k < picks.len() ==> #[trigger] picks[k] < found.len(),
        picks_sorted(picks, found),
        picks_cover(picks, found, cover, found.len() as int),
        r.len() == picks.len(),
        forall|k: int| 0 <= k < r.len() ==> #[trigger] r[k] == found[picks[k] as int].0,
    ensures
        is_sorted_unique(r, found),
{
    let sel = picks.map_values(|x: usize| x as int);
    assert forall|k: int| 0 <= k < sel.len() implies 0 <= #[trigger] sel[k] < found.len() by {
        assert(picks[k] < found.len());
    }
    assert forall|k: int, l: int| 0 <= k < l < sel.len() implies bytes_lt(
        found[#[trigger] sel[k]].1@,
        found[#[trigger] sel[l]].1@,
    ) by {
        assert(bytes_lt(found[picks[k] as int].1@, found[picks[l] as int].1@));
    }
    assert forall|m: int| 0 <= m < found.len() implies #[trigger] selects_address(sel, found, found[m].0) by {
        let k = cover[m];
        assert(found[sel[k]].0 == found[m].0);
    }
    assert(is_sorted_selection(sel, found));
    assert(forall|k: int| 0 <= k < r.len() ==> #[trigger] r[k] == found[sel[k]].0);
}

/// Finishes a DNS lookup of `host:port` whose answer is `found`: the
/// distinct addresses ordered by their text, or
/// [`Error::NoAddresses`] when the answer is empty.
pub fn finish_lookup(host: &str, port: u16, found: &Vec<(IpAddress, Vec<u8>)>) -> (r: Result<Vec<IpAddress>, Error>)
    requires
        keys_consistent(found@),
    ensures
        found@.len() == 0 ==> (r matches Err(Error::NoAddresses { host: h, port: p }) && h@ == host@ && p == port),
        found@.len() > 0 ==> (r matches Ok(v) && is_sorted_unique(v@, found@) && v@.len() > 0),
{
    if found.len() == 0 {
        return Err(Error::NoAddresses { host: String::from_str(host), port });
    }
    Ok(sorted_unique_addresses(found))
}

/// DNS answers: the addresses that a lookup yields are distinct.
pub proof fn law_lookup_addresses_distinct(r: Seq<IpAddress>, found: Seq<(IpAddress, Vec<u8>)>)
    requires
        keys_consistent(found),
        is_sorted_unique(r, found),
    ensures
        forall|k: int, l: int| 0 <= k < l < r.len() ==> r[k] != r[l],
{
    let picks = choose|picks: Seq<int>|
        #![trigger is_sorted_selection(picks, found)]
        {
            &&& is_sorted_selection(picks, found)
            &&& r.len() == picks.len()
            &&& forall|k: int| 0 <= k < r.len() ==> #[trigger] r[k] == found[picks[k]].0
        };
    assert forall|k: int, l: int| 0 <= k < l < r.len() implies r[k] != r[l] by {
        let a = picks[k];
        let b = picks[l];
        assert(bytes_lt(found[a].1@, found[b].1@));
        if r[k] == r[l] {
            assert(found[a].0 == found[b].0);
            assert(found[a].1@ == found[b].1@);
            lemma_bytes_lt_irreflexive(found[a].1@);
        }
    }
}

} // verus!
