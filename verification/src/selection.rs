//! Choosing peers from a listing of the address book: the peers to poll
//! next and the peers to hand out in DNS answers.

use vstd::prelude::*;
use crate::manager::{node_good, node_stale, Node};
use crate::netaddr::{IpAddress, NetAddress};
use crate::text::{opt_str_view, str_eq};

verus! {

/// DNS query type of an A record.
pub const QTYPE_A: u16 = 1;
/// DNS query type of an AAAA record.
pub const QTYPE_AAAA: u16 = 28;

/// The peer belongs to the requested subnetwork, or every subnetwork is
/// requested, or none is named.
pub open spec fn subnetwork_matches(n: Node, include_all: bool, subnetwork_id: Option<Seq<char>>) -> bool {
    include_all || match subnetwork_id {
        None => true,
        Some(id) => n.subnetwork_id is Some && n.subnetwork_id->0@ == id,
    }
}

/// The peer's IP family is the one the record type asks for: IPv4 for A,
/// IPv6 for AAAA.
pub open spec fn family_matches(n: Node, qtype: u16) -> bool {
    (qtype == QTYPE_A && n.address.ip is V4) || (qtype == QTYPE_AAAA && n.address.ip is V6)
}

/// A peer that a DNS answer may name: right subnetwork, right family, and
/// good or stale.
pub open spec fn dns_eligible(
    n: Node,
    qtype: u16,
    include_all: bool,
    subnetwork_id: Option<Seq<char>>,
    now: u64,
    default_port: u16,
) -> bool {
    subnetwork_matches(n, include_all, subnetwork_id) && family_matches(n, qtype) && (node_good(
        n,
        now,
        default_port,
    ) || node_stale(n, now))
}

/// The addresses of the eligible peers of `e`, in the order of `e`.
pub open spec fn eligible_addresses(
    e: Seq<Node>,
    qtype: u16,
    include_all: bool,
    subnetwork_id: Option<Seq<char>>,
    now: u64,
    default_port: u16,
) -> Seq<NetAddress>
    decreases e.len(),
{
    if e.len() == 0 {
        Seq::<NetAddress>::empty()
    } else {
        let p = eligible_addresses(e.drop_last(), qtype, include_all, subnetwork_id, now, default_port);
        if dns_eligible(e.last(), qtype, include_all, subnetwork_id, now, default_port) {
            p.push(e.last().address)
        } else {
            p
        }
    }
}

/// What a DNS query of type `qtype` is answered from: nothing unless the
/// type is A or AAAA, else the eligible peers of `e` in order.
pub open spec fn dns_candidates(
    e: Seq<Node>,
    qtype: u16,
    include_all: bool,
    subnetwork_id: Option<Seq<char>>,
    now: u64,
    default_port: u16,
) -> Seq<NetAddress> {
    if qtype == QTYPE_A || qtype == QTYPE_AAAA {
        eligible_addresses(e, qtype, include_all, subnetwork_id, now, default_port)
    } else {
        Seq::<NetAddress>::empty()
    }
}

/// Every address in `eligible_addresses(e, ..)` is the address of an
/// eligible peer of `e`.
pub proof fn lemma_eligible_addresses_members(
    e: Seq<Node>,
    qtype: u16,
    include_all: bool,
    subnetwork_id: Option<Seq<char>>,
    now: u64,
    default_port: u16,
)
    ensures
        eligible_addresses(e, qtype, include_all, subnetwork_id, now, default_port).len() <= e.len(),
        forall|j: int|
            0 <= j < eligible_addresses(e, qtype, include_all, subnetwork_id, now, default_port).len()
                ==> exists|i: int|
                0 <= i < e.len() && e[i].address == #[trigger] eligible_addresses(
                    e,
                    qtype,
                    include_all,
                    subnetwork_id,
                    now,
                    default_port,
                )[j] && dns_eligible(e[i], qtype, include_all, subnetwork_id, now, default_port),
    decreases e.len(),
{
    if e.len() > 0 {
        lemma_eligible_addresses_members(e.drop_last(), qtype, include_all, subnetwork_id, now, default_port);
        let p = eligible_addresses(e.drop_last(), qtype, include_all, subnetwork_id, now, default_port);
        let q = eligible_addresses(e, qtype, include_all, subnetwork_id, now, default_port);
        assert forall|j: int| 0 <= j < q.len() implies exists|i: int|
            0 <= i < e.len() && e[i].address == #[trigger] q[j] && dns_eligible(
                e[i],
                qtype,
                include_all,
                subnetwork_id,
                now,
                default_port,
            ) by {
            if j < p.len() {
                let i = choose|i: int|
                    0 <= i < e.drop_last().len() && e.drop_last()[i].address == #[trigger] p[j]
                        && dns_eligible(e.drop_last()[i], qtype, include_all, subnetwork_id, now, default_port);
                assert(e[i] == e.drop_last()[i]);
            } else {
                assert(e[e.len() - 1] == e.last());
            }
        }
    }
}

/// Whether `n` is eligible for a DNS answer.
pub fn is_dns_eligible(
    n: &Node,
    qtype: u16,
    include_all: bool,
    subnetwork_id: Option<&str>,
    now: u64,
    default_port: u16,
) -> (r: bool)
    ensures
        r == dns_eligible(*n, qtype, include_all, opt_str_view(subnetwork_id), now, default_port),
{
    if !include_all {
        match subnetwork_id {
            Some(expected) => match &n.subnetwork_id {
                Some(actual) => {
                    if !str_eq(expected, actual.as_str()) {
                        return false;
                    }
                },
                None => {
                    return false;
                },
            },
            None => {},
        }
    }
    let is_v4 = n.address.ip.is_ipv4();
    if !((qtype == QTYPE_A && is_v4) || (qtype == QTYPE_AAAA && !is_v4)) {
        return false;
    }
    n.is_good_at(now, default_port) || n.is_stale_at(now)
}

/// The addresses a DNS query of type `qtype` is answered from, out of the
/// listing `entries`: none unless the type is A (1) or AAAA (28); else each
/// peer of the right family and subnetwork that is good or stale, in order.
pub fn good_addresses_of(
    entries: &Vec<Node>,
    qtype: u16,
    include_all_subnetworks: bool,
    subnetwork_id: Option<&str>,
    now: u64,
    default_port: u16,
) -> (r: Vec<NetAddress>)
    ensures
        r@ == dns_candidates(
            entries@,
            qtype,
            include_all_subnetworks,
            opt_str_view(subnetwork_id),
            now,
            default_port,
        ),
{
    let mut r: Vec<NetAddress> = Vec::new();
    if qtype != QTYPE_A && qtype != QTYPE_AAAA {
        return r;
    }
    let mut i: usize = 0;
    while i < entries.len()
        invariant
            i <= entries@.len(),
            qtype == QTYPE_A || qtype == QTYPE_AAAA,
            r@ == eligible_addresses(
                entries@.take(i as int),
                qtype,
                include_all_subnetworks,
                opt_str_view(subnetwork_id),
                now,
                default_port,
            ),
        decreases entries@.len() - i,
    {
        assert(entries@.take(i + 1).drop_last() =~= entries@.take(i as int));
        assert(entries@.take(i + 1).last() == entries@[i as int]);
        if is_dns_eligible(&entries[i], qtype, include_all_subnetworks, subnetwork_id, now, default_port) {
            r.push(entries[i].address);
        }
        i = i + 1;
    }
    assert(entries@.take(entries@.len() as int) =~= entries@);
    r
}

/// Whether index `i` comes before index `j` by key: a smaller key, or an
/// equal key and a lower index.
pub open spec fn earlier(keys: Seq<u64>, i: int, j: int) -> bool {
    keys[i] < keys[j] || (keys[i] == keys[j] && i < j)
}

/// `c` lists, smallest key first and, among equal keys, lowest index
/// first, up to `k` distinct indices of `keys` that `eligible` marks; it
/// falls short of `k` only when it lists every marked index, and every
/// marked index left out comes after every one listed.
pub open spec fn picks_oldest(keys: Seq<u64>, eligible: Seq<bool>, k: int, c: Seq<int>) -> bool {
    &&& c.len() <= k
    &&& forall|j: int| 0 <= j < c.len() ==> 0 <= #[trigger] c[j] < keys.len() && c[j] < eligible.len() && eligible[c[j]]
    &&& forall|i: int, j: int| 0 <= i < j < c.len() ==> c[i] != c[j]
    &&& forall|i: int, j: int| 0 <= i < j < c.len() ==> earlier(keys, #[trigger] c[i], #[trigger] c[j])
    &&& forall|x: int|
        0 <= x < keys.len() && x < eligible.len() && eligible[x] && !c.contains(x) ==> c.len() == k
            && forall|j: int| 0 <= j < c.len() ==> earlier(keys, #[trigger] c[j], x)
}

/// How many marks are set.
pub open spec fn count_marked(m: Seq<bool>) -> nat
    decreases m.len(),
{
    if m.len() == 0 {
        0
    } else {
        count_marked(m.drop_last()) + if m.last() {
            1nat
        } else {
            0nat
        }
    }
}

/// The indices whose mark is set.
pub open spec fn marked_set(m: Seq<bool>) -> Set<int> {
    Set::new(|i: int| 0 <= i < m.len() && m[i])
}

/// The set of marked indices is finite and has `count_marked` elements.
proof fn lemma_marked_set_len(m: Seq<bool>)
    ensures
        marked_set(m).finite(),
        marked_set(m).len() == count_marked(m),
    decreases m.len(),
{
    if m.len() == 0 {
        assert(marked_set(m) =~= Set::<int>::empty());
    } else {
        let p = m.drop_last();
        lemma_marked_set_len(p);
        if m.last() {
            assert(marked_set(m) =~= marked_set(p).insert(m.len() - 1));
        } else {
            assert(marked_set(m) =~= marked_set(p));
        }
    }
}

/// A pick asked for no more indices than are marked gets exactly as many
/// as it asked for.
pub proof fn lemma_picks_exactly(keys: Seq<u64>, eligible: Seq<bool>, k: int, c: Seq<int>)
    requires
        picks_oldest(keys, eligible, k, c),
        keys.len() == eligible.len(),
        k <= count_marked(eligible),
    ensures
        c.len() == k,
{
    if c.len() < k {
        lemma_marked_set_len(eligible);
        assert forall|x: int| marked_set(eligible).contains(x) implies c.to_set().contains(x) by {
            if !c.contains(x) {
                assert(c.len() == k);
            }
        }
        vstd::set_lib::lemma_len_subset(marked_set(eligible), c.to_set());
        c.lemma_cardinality_of_set();
    }
}

/// When each peer of a listing was last tried.
pub open spec fn attempt_keys(e: Seq<Node>) -> Seq<u64> {
    Seq::new(e.len(), |i: int| e[i].last_attempt)
}

/// Picks, smallest key first, up to `k` of the indices of `keys` that
/// `eligible` marks.
pub fn pick_oldest(keys: &Vec<u64>, eligible: &Vec<bool>, k: usize) -> (r: Vec<usize>)
    requires
        eligible@.len() == keys@.len(),
    ensures
        picks_oldest(keys@, eligible@, k as int, r@.map_values(|i: usize| i as int)),
{
    let n = keys.len();
    let mut taken: Vec<bool> = Vec::new();
    let mut t: usize = 0;
    while t < n
        invariant
            t <= n,
            n == keys@.len(),
            taken@.len() == t,
            forall|j: int| 0 <= j < t ==> !taken@[j],
        decreases n - t,
    {
        taken.push(false);
        t = t + 1;
    }
    let mut c: Vec<usize> = Vec::new();
    loop
        invariant
            n == keys@.len(),
            eligible@.len() == n,
            taken@.len() == n,
            c@.len() <= k,
            forall|j: int| 0 <= j < c@.len() ==> (#[trigger] c@[j]) < n && eligible@[c@[j] as int],
            forall|x: int| 0 <= x < n ==> (taken@[x] <==> c@.contains(x as usize)),
            forall|i: int, j: int| 0 <= i < j < c@.len() ==> c@[i] != c@[j],
            forall|i: int, j: int|
                0 <= i < j < c@.len() ==> earlier(keys@, #[trigger] c@[i] as int, #[trigger] c@[j] as int),
            forall|x: int, j: int|
                0 <= x < n && eligible@[x] && !taken@[x] && 0 <= j < c@.len()
                    ==> #[trigger] earlier(keys@, c@[j] as int, x),
        ensures
            forall|x: int| 0 <= x < n ==> (taken@[x] <==> c@.contains(x as usize)),
            forall|x: int| 0 <= x < n && eligible@[x] && !taken@[x] ==> c@.len() == k,
        decreases k - c@.len(),
    {
        if c.len() >= k {
            break;
        }
        let mut best: usize = n;
        let mut x: usize = 0;
        while x < n
            invariant
                n == keys@.len(),
                eligible@.len() == n,
                taken@.len() == n,
                x <= n,
                best == n || (best < x && eligible@[best as int] && !taken@[best as int]),
                best == n ==> forall|y: int| 0 <= y < x ==> !(eligible@[y] && !taken@[y]),
                best < n ==> forall|y: int|
                    0 <= y < x && eligible@[y] && !taken@[y] && y != best ==> earlier(keys@, best as int, y),
            decreases n - x,
        {
            if eligible[x] && !taken[x] {
                if best == n || keys[x] < keys[best] {
                    best = x;
                }
            }
            x = x + 1;
        }
        if best == n {
            break;
        }
        let ghost old_c = c@;
        let ghost old_taken = taken@;
        taken.set(best, true);
        c.push(best);
        proof {
            assert forall|y: int| 0 <= y < n implies (taken@[y] <==> c@.contains(y as usize)) by {
                if y == best as int {
                    assert(c@[c@.len() - 1] == best);
                } else {
                    if c@.contains(y as usize) {
                        let j = choose|j: int| 0 <= j < c@.len() && c@[j] == y as usize;
                        assert(j < old_c.len());
                        assert(old_c.contains(y as usize));
                    }
                    if old_c.contains(y as usize) {
                        let j = choose|j: int| 0 <= j < old_c.len() && old_c[j] == y as usize;
                        assert(c@[j] == y as usize);
                    }
                }
            }
            assert forall|i: int, j: int| 0 <= i < j < c@.len() implies c@[i] != c@[j] by {
                if j == c@.len() - 1 {
                    assert(old_taken[c@[i] as int]);
                    assert(old_c.contains(c@[i]));
                }
            }
        }
    }
    proof {
        let cv = c@.map_values(|i: usize| i as int);
        assert forall|x: int|
            0 <= x < keys@.len() && x < eligible@.len() && eligible@[x] && !cv.contains(x) implies cv.len()
            == k && forall|j: int| 0 <= j < cv.len() ==> earlier(keys@, #[trigger] cv[j], x) by {
            if taken@[x] {
                let j = choose|j: int| 0 <= j < c@.len() && c@[j] == x as usize;
                assert(cv[j] == x);
            }
        }
        assert forall|i: int, j: int| 0 <= i < j < cv.len() implies cv[i] != cv[j] by {
            assert(c@[i] != c@[j]);
        }
    }
    c
}

/// The stale marks of a listing.
pub open spec fn stale_marks(e: Seq<Node>, now: u64) -> Seq<bool> {
    Seq::new(e.len(), |i: int| node_stale(e[i], now))
}

/// The marks of the good peers of a listing whose address is not in `taken`.
pub open spec fn good_marks(e: Seq<Node>, now: u64, default_port: u16, taken: Seq<NetAddress>) -> Seq<bool> {
    Seq::new(e.len(), |i: int| node_good(e[i], now, default_port) && !taken.contains(e[i].address))
}

/// The addresses of the listed peers at the indices `c`.
pub open spec fn addresses_at(e: Seq<Node>, c: Seq<int>) -> Seq<NetAddress> {
    c.map_values(|i: int| e[i].address)
}

/// `r` is what a polling round takes from the listing `e`: up to three
/// peers per crawler thread, first the stale peers that were tried longest
/// ago, then, when fewer stale peers than that exist, the good peers not yet
/// taken that were tried longest ago.
pub open spec fn polling_choice(e: Seq<Node>, threads: u8, now: u64, default_port: u16, r: Seq<NetAddress>) -> bool {
    let k = 3 * threads;
    exists|c1: Seq<int>, c2: Seq<int>|
        #![trigger picks_oldest(attempt_keys(e), stale_marks(e, now), k, c1), picks_oldest(attempt_keys(e), good_marks(e, now, default_port, addresses_at(e, c1)), k - c1.len(), c2)]
        picks_oldest(attempt_keys(e), stale_marks(e, now), k, c1) && picks_oldest(
            attempt_keys(e),
            good_marks(e, now, default_port, addresses_at(e, c1)),
            k - c1.len(),
            c2,
        ) && r == addresses_at(e, c1) + addresses_at(e, c2)
}

/// Whether `v` holds `a`.
pub fn contains_address(v: &Vec<NetAddress>, a: &NetAddress) -> (r: bool)
    ensures
        r == v@.contains(*a),
{
    let mut i: usize = 0;
    while i < v.len()
        invariant
            i <= v@.len(),
            forall|j: int| 0 <= j < i ==> v@[j] != *a,
        decreases v@.len() - i,
    {
        if v[i] == *a {
            return true;
        }
        i = i + 1;
    }
    false
}

/// The addresses of the listed peers at the picked indices, appended to `out`.
fn push_picked(entries: &Vec<Node>, picked: &Vec<usize>, out: &mut Vec<NetAddress>)
    requires
        forall|j: int| 0 <= j < picked@.len() ==> (#[trigger] picked@[j]) < entries@.len(),
    ensures
        final(out)@ == old(out)@ + addresses_at(entries@, picked@.map_values(|i: usize| i as int)),
{
    let ghost start = out@;
    let mut j: usize = 0;
    while j < picked.len()
        invariant
            j <= picked@.len(),
            forall|l: int| 0 <= l < picked@.len() ==> (#[trigger] picked@[l]) < entries@.len(),
            out@ == start + addresses_at(entries@, picked@.map_values(|i: usize| i as int).take(j as int)),
        decreases picked@.len() - j,
    {
        out.push(entries[picked[j]].address);
        j = j + 1;
        assert(addresses_at(entries@, picked@.map_values(|i: usize| i as int).take(j as int)) =~= addresses_at(
            entries@,
            picked@.map_values(|i: usize| i as int).take(j - 1),
        ).push(entries@[picked@[j - 1] as int].address));
    }
    assert(picked@.map_values(|i: usize| i as int).take(picked@.len() as int) =~= picked@.map_values(
        |i: usize| i as int,
    ));
}

/// The peers a polling round takes from the listing `entries`: up to three
/// per crawler thread, stale peers first, oldest try first, then good peers
/// not yet taken, oldest try first.
pub fn select_for_polling(entries: &Vec<Node>, threads: u8, now: u64, default_port: u16) -> (r: Vec<NetAddress>)
    ensures
        polling_choice(entries@, threads, now, default_port, r@),
{
    let k: usize = threads as usize * 3;
    let mut stale: Vec<bool> = Vec::new();
    let mut i: usize = 0;
    while i < entries.len()
        invariant
            i <= entries@.len(),
            stale@.len() == i,
            forall|j: int| 0 <= j < i ==> stale@[j] == node_stale(entries@[j], now),
        decreases entries@.len() - i,
    {
        stale.push(entries[i].is_stale_at(now));
        i = i + 1;
    }
    assert(stale@ =~= stale_marks(entries@, now));
    let mut keys: Vec<u64> = Vec::new();
    let mut i: usize = 0;
    while i < entries.len()
        invariant
            i <= entries@.len(),
            keys@.len() == i,
            forall|j: int| 0 <= j < i ==> keys@[j] == entries@[j].last_attempt,
        decreases entries@.len() - i,
    {
        keys.push(entries[i].last_attempt);
        i = i + 1;
    }
    assert(keys@ =~= attempt_keys(entries@));
    let c1 = pick_oldest(&keys, &stale, k);
    let ghost c1v = c1@.map_values(|i: usize| i as int);
    let mut r: Vec<NetAddress> = Vec::new();
    proof {
        assert forall|j: int| 0 <= j < c1@.len() implies (#[trigger] c1@[j]) < entries@.len() by {
            assert(c1v[j] == c1@[j] as int);
        }
    }
    push_picked(entries, &c1, &mut r);
    assert(r@ =~= addresses_at(entries@, c1v));
    let ghost a1 = r@;
    let mut good: Vec<bool> = Vec::new();
    let mut i: usize = 0;
    while i < entries.len()
        invariant
            i <= entries@.len(),
            good@.len() == i,
            r@ == a1,
            forall|j: int| 0 <= j < i ==> good@[j] == (node_good(entries@[j], now, default_port) && !a1.contains(entries@[j].address)),
        decreases entries@.len() - i,
    {
        let g = entries[i].is_good_at(now, default_port) && !contains_address(&r, &entries[i].address);
        good.push(g);
        i = i + 1;
    }
    assert(good@ =~= good_marks(entries@, now, default_port, a1));
    let rest: usize = if r.len() < k { k - r.len() } else { 0 };
    let c2 = if r.len() < k {
        pick_oldest(&keys, &good, rest)
    } else {
        Vec::new()
    };
    let ghost c2v = c2@.map_values(|i: usize| i as int);
    proof {
        assert(c1v.len() == r@.len());
        if r@.len() >= k {
            assert(c2v =~= Seq::<int>::empty());
            assert(c1v.len() <= k);
        }
        assert(picks_oldest(keys@, good@, (3 * threads) - c1v.len(), c2v));
        assert forall|j: int| 0 <= j < c2@.len() implies (#[trigger] c2@[j]) < entries@.len() by {
            assert(c2v[j] == c2@[j] as int);
        }
    }
    push_picked(entries, &c2, &mut r);
    assert(picks_oldest(attempt_keys(entries@), stale_marks(entries@, now), 3 * threads, c1v));
    r
}

} // verus!
