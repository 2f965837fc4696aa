//! Properties of the address book that hold across its operations.

use vstd::prelude::*;
use crate::manager::{accepted, add_all, after_attempt, book_wf, count_new, fresh_node, lemma_add_all_wf, node_expired, node_good, node_stale, without_expired, Node};
use crate::netaddr::{key_of, routable, IpAddress, NetAddress, NodeKey};
use crate::dns::answer_records;
use crate::grpc::all_of_family;
use crate::dns_wire::{DnsRecord, DnsRecordData};
use crate::crawler::{mark_all_known, marked_known};
use crate::selection::{addresses_at, attempt_keys, count_marked, lemma_picks_exactly, dns_candidates, dns_eligible, eligible_addresses, good_marks, lemma_eligible_addresses_members, picks_oldest, polling_choice, stale_marks, QTYPE_A, QTYPE_AAAA};

verus! {

/// After addresses are added, every accepted address is in the book, no
/// peer has left it, a peer already known keeps everything but the time it
/// was last seen, every peer in the book was known before or is an accepted
/// address just heard of, and the book grew by exactly the count returned,
/// which never exceeds the number of addresses given.
pub proof fn law_add_addresses(m: Map<NodeKey, Node>, s: Seq<NetAddress>, acc: bool, now: u64)
    requires
        book_wf(m),
    ensures
        forall|i: int| 0 <= i < s.len() && accepted(#[trigger] s[i], acc) ==> add_all(m, s, acc, now).contains_key(key_of(s[i])),
        forall|k: NodeKey| #[trigger] m.contains_key(k) ==> add_all(m, s, acc, now).contains_key(k)
            && add_all(m, s, acc, now)[k] == (Node { last_seen: add_all(m, s, acc, now)[k].last_seen, ..m[k] }),
        forall|k: NodeKey| #[trigger] add_all(m, s, acc, now).contains_key(k) ==> m.contains_key(k)
            || exists|i: int| 0 <= i < s.len() && accepted(s[i], acc) && key_of(s[i]) == k,
        add_all(m, s, acc, now).len() == m.len() + count_new(m, s, acc, now),
        count_new(m, s, acc, now) <= s.len(),
    decreases s.len(),
{
    lemma_add_all_wf(m, s, acc, now);
    if s.len() > 0 {
        let p = s.drop_last();
        law_add_addresses(m, p, acc, now);
        let b = add_all(m, p, acc, now);
        let r = add_all(m, s, acc, now);
        assert forall|i: int| 0 <= i < s.len() && accepted(#[trigger] s[i], acc) implies r.contains_key(key_of(s[i])) by {
            if i < p.len() {
                assert(p[i] == s[i]);
                assert(b.contains_key(key_of(p[i])));
            }
        }
        assert forall|k: NodeKey| #[trigger] r.contains_key(k) implies m.contains_key(k)
            || exists|i: int| 0 <= i < s.len() && accepted(s[i], acc) && key_of(s[i]) == k by {
            if b.contains_key(k) {
                if !m.contains_key(k) {
                    let i = choose|i: int| 0 <= i < p.len() && accepted(p[i], acc) && key_of(p[i]) == k;
                    assert(s[i] == p[i]);
                }
            } else {
                assert(s[s.len() - 1] == s.last());
            }
        }
    }
}

/// A peer that has just been heard of and never tried is stale, so it is
/// due to be polled at once, whatever the time.
pub proof fn law_new_peer_is_due(a: NetAddress, heard: u64, now: u64)
    ensures
        node_stale(fresh_node(a, heard), now),
{
}

/// A successful connection makes a peer on the default port good at once,
/// and never makes good a peer on another port.
pub proof fn law_success_makes_good(n: Node, error: Option<String>, now: u64, default_port: u16)
    ensures
        node_good(after_attempt(n, true, error, now), now, default_port) <==> n.address.port
            == default_port,
{
}

/// A DNS query is answered only from peers of the family it asks for: A
/// queries from IPv4 peers, AAAA queries from IPv6 peers, and any other
/// query type from none; each address answered is that of an eligible peer
/// of the listing.
pub proof fn law_dns_family(
    e: Seq<Node>,
    qtype: u16,
    include_all: bool,
    subnetwork_id: Option<Seq<char>>,
    now: u64,
    default_port: u16,
)
    ensures
        ({
            let r = dns_candidates(e, qtype, include_all, subnetwork_id, now, default_port);
            &&& (qtype != QTYPE_A && qtype != QTYPE_AAAA ==> r.len() == 0)
            &&& (qtype == QTYPE_A ==> forall|j: int| 0 <= j < r.len() ==> (#[trigger] r[j]).ip is V4)
            &&& (qtype == QTYPE_AAAA ==> forall|j: int| 0 <= j < r.len() ==> (#[trigger] r[j]).ip is V6)
            &&& forall|j: int| 0 <= j < r.len() ==> exists|i: int|
                0 <= i < e.len() && e[i].address == #[trigger] r[j] && dns_eligible(
                    e[i],
                    qtype,
                    include_all,
                    subnetwork_id,
                    now,
                    default_port,
                )
        }),
{
    lemma_eligible_addresses_members(e, qtype, include_all, subnetwork_id, now, default_port);
    let r = dns_candidates(e, qtype, include_all, subnetwork_id, now, default_port);
    assert forall|j: int| 0 <= j < r.len() implies (qtype == QTYPE_A ==> (#[trigger] r[j]).ip is V4) && (
    qtype == QTYPE_AAAA ==> r[j].ip is V6) by {
        if qtype == QTYPE_A || qtype == QTYPE_AAAA {
            let i = choose|i: int|
                0 <= i < e.len() && e[i].address == #[trigger] eligible_addresses(
                    e,
                    qtype,
                    include_all,
                    subnetwork_id,
                    now,
                    default_port,
                )[j] && dns_eligible(e[i], qtype, include_all, subnetwork_id, now, default_port);
        }
    }
}

/// The first `n` addresses of `r` are those of stale listed peers, the
/// rest those of good listed peers.
pub open spec fn stale_then_good(e: Seq<Node>, r: Seq<NetAddress>, n: int, now: u64, default_port: u16) -> bool {
    &&& 0 <= n <= r.len()
    &&& forall|j: int| 0 <= j < n ==> exists|i: int| 0 <= i < e.len() && e[i].address == #[trigger] r[j] && node_stale(e[i], now)
    &&& forall|j: int| n <= j < r.len() ==> exists|i: int| 0 <= i < e.len() && e[i].address == #[trigger] r[j] && node_good(e[i], now, default_port)
}

/// A polling round takes at most three peers per crawler thread, never the
/// same address twice, and only addresses of listed peers; the stale peers
/// it takes come before the good ones.
pub proof fn law_polling_round(e: Seq<Node>, threads: u8, now: u64, default_port: u16, r: Seq<NetAddress>)
    requires
        polling_choice(e, threads, now, default_port, r),
        forall|i: int, j: int| 0 <= i < j < e.len() ==> key_of(#[trigger] e[i].address) != key_of(#[trigger] e[j].address),
    ensures
        r.len() <= 3 * threads,
        r.no_duplicates(),
        forall|j: int| 0 <= j < r.len() ==> exists|i: int| 0 <= i < e.len() && e[i].address == #[trigger] r[j],
        exists|n: int| #[trigger] stale_then_good(e, r, n, now, default_port),
{
    let k = 3 * threads;
    let (c1, c2) = choose|c1: Seq<int>, c2: Seq<int>|
        #![trigger picks_oldest(attempt_keys(e), stale_marks(e, now), k, c1), picks_oldest(attempt_keys(e), good_marks(e, now, default_port, addresses_at(e, c1)), k - c1.len(), c2)]
        picks_oldest(attempt_keys(e), stale_marks(e, now), k, c1) && picks_oldest(
            attempt_keys(e),
            good_marks(e, now, default_port, addresses_at(e, c1)),
            k - c1.len(),
            c2,
        ) && r == addresses_at(e, c1) + addresses_at(e, c2);
    let a1 = addresses_at(e, c1);
    let a2 = addresses_at(e, c2);
    assert(r.len() == c1.len() + c2.len());
    assert forall|j: int| 0 <= j < r.len() implies exists|i: int| 0 <= i < e.len() && e[i].address == #[trigger] r[j] by {
        if j < c1.len() {
            assert(r[j] == e[c1[j]].address);
        } else {
            assert(r[j] == e[c2[j - c1.len()]].address);
        }
    }
    assert forall|j: int| 0 <= j < c1.len() implies exists|i: int|
        0 <= i < e.len() && e[i].address == #[trigger] r[j] && node_stale(e[i], now) by {
        assert(r[j] == e[c1[j]].address);
        assert(stale_marks(e, now)[c1[j]]);
    }
    assert forall|j: int| c1.len() <= j < r.len() implies exists|i: int|
        0 <= i < e.len() && e[i].address == #[trigger] r[j] && node_good(e[i], now, default_port) by {
        assert(r[j] == e[c2[j - c1.len()]].address);
        assert(good_marks(e, now, default_port, a1)[c2[j - c1.len()]]);
    }
    assert(stale_then_good(e, r, c1.len() as int, now, default_port));
    assert forall|x: int, y: int| 0 <= x < y < r.len() implies r[x] != r[y] by {
        if y < c1.len() {
            assert(c1[x] != c1[y]);
            if r[x] == r[y] {
                assert(key_of(e[c1[x]].address) == key_of(e[c1[y]].address));
                if c1[x] < c1[y] {
                } else {
                }
            }
        } else if x >= c1.len() {
            let x2 = x - c1.len();
            let y2 = y - c1.len();
            assert(c2[x2] != c2[y2]);
            if r[x] == r[y] {
                assert(key_of(e[c2[x2]].address) == key_of(e[c2[y2]].address));
            }
        } else {
            let y2 = y - c1.len();
            assert(good_marks(e, now, default_port, a1)[c2[y2]]);
            assert(!a1.contains(e[c2[y2]].address));
            assert(a1[x] == r[x]);
        }
    }
}

/// When at least three peers per crawler thread are stale, a polling round
/// takes exactly three per thread, all of them stale.
pub proof fn law_full_polling_round(e: Seq<Node>, threads: u8, now: u64, default_port: u16, r: Seq<NetAddress>)
    requires
        polling_choice(e, threads, now, default_port, r),
        count_marked(stale_marks(e, now)) >= 3 * threads,
    ensures
        r.len() == 3 * threads,
        forall|j: int| 0 <= j < r.len() ==> exists|i: int| 0 <= i < e.len() && e[i].address == #[trigger] r[j] && node_stale(e[i], now),
{
    let k = 3 * threads;
    let (c1, c2) = choose|c1: Seq<int>, c2: Seq<int>|
        #![trigger picks_oldest(attempt_keys(e), stale_marks(e, now), k, c1), picks_oldest(attempt_keys(e), good_marks(e, now, default_port, addresses_at(e, c1)), k - c1.len(), c2)]
        picks_oldest(attempt_keys(e), stale_marks(e, now), k, c1) && picks_oldest(
            attempt_keys(e),
            good_marks(e, now, default_port, addresses_at(e, c1)),
            k - c1.len(),
            c2,
        ) && r == addresses_at(e, c1) + addresses_at(e, c2);
    lemma_picks_exactly(attempt_keys(e), stale_marks(e, now), k, c1);
    assert(c2.len() == 0);
    assert forall|j: int| 0 <= j < r.len() implies exists|i: int| 0 <= i < e.len() && e[i].address == #[trigger] r[j] && node_stale(e[i], now) by {
        assert(r[j] == e[c1[j]].address);
        assert(stale_marks(e, now)[c1[j]]);
    }
}

/// Pruning removes exactly the expired peers: none remains, and every
/// other peer stays as it was.
pub proof fn law_prune(m: Map<NodeKey, Node>, now: u64)
    ensures
        forall|k: NodeKey| #[trigger] without_expired(m, now).contains_key(k) ==> !node_expired(without_expired(m, now)[k], now),
        forall|k: NodeKey| #[trigger] m.contains_key(k) && !node_expired(m[k], now) ==> without_expired(m, now).contains_key(k)
            && without_expired(m, now)[k] == m[k],
        forall|k: NodeKey| #[trigger] without_expired(m, now).contains_key(k) ==> m.contains_key(k),
{
}

/// Marking known peers touches only the peers listed: each is marked tried
/// and reached, every other peer and the set of keys stay as they were.
pub proof fn lemma_mark_all_known(m: Map<NodeKey, Node>, peers: Seq<NetAddress>, now: u64)
    ensures
        mark_all_known(m, peers, now).dom() == m.dom(),
        forall|k: NodeKey| #[trigger] m.contains_key(k) ==> mark_all_known(m, peers, now)[k] == (if exists|i: int|
            0 <= i < peers.len() && key_of(peers[i]) == k {
            marked_known(m[k], now)
        } else {
            m[k]
        }),
    decreases peers.len(),
{
    if peers.len() > 0 {
        let p = peers.drop_last();
        lemma_mark_all_known(m, p, now);
        let b = mark_all_known(m, p, now);
        let r = mark_all_known(m, peers, now);
        assert(r.dom() =~= m.dom());
        assert forall|k: NodeKey| #[trigger] m.contains_key(k) implies r[k] == (if exists|i: int|
            0 <= i < peers.len() && key_of(peers[i]) == k {
            marked_known(m[k], now)
        } else {
            m[k]
        }) by {
            if exists|i: int| 0 <= i < p.len() && key_of(p[i]) == k {
                let i = choose|i: int| 0 <= i < p.len() && key_of(p[i]) == k;
                assert(peers[i] == p[i]);
            }
            if exists|i: int| 0 <= i < peers.len() && key_of(peers[i]) == k {
                if k != key_of(peers.last()) {
                    let i = choose|i: int| 0 <= i < peers.len() && key_of(peers[i]) == k;
                    assert(i != peers.len() - 1);
                    assert(p[i] == peers[i]);
                }
            }
        }
    }
}

/// After the known peers are seeded, every one of them that is routable is
/// in the book, marked tried and reached at that moment, so each on the
/// network's default port is good.
pub proof fn law_known_peers_reached(m: Map<NodeKey, Node>, peers: Seq<NetAddress>, now: u64, default_port: u16)
    requires
        book_wf(m),
    ensures
        forall|i: int| 0 <= i < peers.len() && accepted(#[trigger] peers[i], false) ==> {
            let b = mark_all_known(add_all(m, peers, false, now), peers, now);
            &&& b.contains_key(key_of(peers[i]))
            &&& b[key_of(peers[i])].last_attempt == now
            &&& b[key_of(peers[i])].last_success == now
            &&& (peers[i].port == default_port ==> node_good(b[key_of(peers[i])], now, default_port))
        },
{
    law_add_addresses(m, peers, false, now);
    let g = add_all(m, peers, false, now);
    lemma_mark_all_known(g, peers, now);
    lemma_add_all_wf(m, peers, false, now);
    assert forall|i: int| 0 <= i < peers.len() && accepted(#[trigger] peers[i], false) implies {
        let b = mark_all_known(g, peers, now);
        &&& b.contains_key(key_of(peers[i]))
        &&& b[key_of(peers[i])].last_attempt == now
        &&& b[key_of(peers[i])].last_success == now
        &&& (peers[i].port == default_port ==> node_good(b[key_of(peers[i])], now, default_port))
    } by {
        assert(g.contains_key(key_of(peers[i])));
        assert(g[key_of(peers[i])].address == peers[i]);
    }
}

/// When a peer is due again: a peer reached before is stale exactly when
/// its last try lies more than two hours back, whatever its last success
/// or when it was seen; a peer never reached is stale when it was never
/// tried (its last try is the moment it was first seen) or its last try
/// lies more than five seconds back.
pub proof fn law_staleness(n: Node, now: u64)
    ensures
        n.last_success != 0 ==> (node_stale(n, now) <==> (now >= n.last_attempt && now - n.last_attempt
            > 7_200_000_000_000)),
        n.last_success == 0 ==> (node_stale(n, now) <==> (n.last_attempt == n.last_seen || (now
            >= n.last_attempt && now - n.last_attempt > 5_000_000_000))),
{
}

/// A peer is good exactly when it is on the network's default port and its
/// last success lies less than an hour back (or is later than now).
pub proof fn law_goodness(n: Node, now: u64, default_port: u16)
    ensures
        node_good(n, now, default_port) <==> (n.address.port == default_port && (now < n.last_success || now
            - n.last_success < 3_600_000_000_000)),
{
}

/// A peer expires exactly when it was last seen more than eight hours
/// before now, whatever its attempts and successes; pruning keeps exactly
/// the peers seen within eight hours, unchanged.
pub proof fn law_expiry(m: Map<NodeKey, Node>, n: Node, now: u64)
    ensures
        node_expired(n, now) <==> (now >= n.last_seen && now - n.last_seen > 28_800_000_000_000),
        forall|k: NodeKey| #[trigger] without_expired(m, now).contains_key(k) <==> (m.contains_key(k) && !(now
            >= m[k].last_seen && now - m[k].last_seen > 28_800_000_000_000)),
        forall|k: NodeKey| #[trigger] without_expired(m, now).contains_key(k) ==> without_expired(m, now)[k] == m[k],
{
}

/// Private, loopback, link-local, multicast and reserved IPv4 addresses are
/// never routable, so a book that does not accept unroutable addresses
/// never files one: 10.0.0.0/8, 172.16.0.0/12, 192.168.0.0/16, 127.0.0.0/8,
/// 169.254.0.0/16, 224.0.0.0/4, 192.0.2.0/24, 198.51.100.0/24,
/// 203.0.113.0/24 and 198.18.0.0/15; nor is any address with port 0.
pub proof fn law_unroutable_ipv4(a: NetAddress, x: u8, y: u8, z: u8, w: u8)
    requires
        a.ip == IpAddress::V4(x, y, z, w),
        x == 10 || (x == 172 && 16 <= y <= 31) || (x == 192 && y == 168) || x == 127 || (x == 169 && y == 254) || (
        224 <= x <= 239) || (x == 192 && y == 0 && z == 2) || (x == 198 && y == 51 && z == 100) || (x == 203
            && y == 0 && z == 113) || (x == 198 && (y == 18 || y == 19)) || a.port == 0,
    ensures
        !routable(a),
        !accepted(a, false),
{
}

/// The address record of `a`: an A record of an IPv4 address or an AAAA
/// record of an IPv6 address, with a 30-second TTL.
pub open spec fn address_record(a: NetAddress) -> DnsRecord {
    match a.ip {
        IpAddress::V4(x, y, z, w) => DnsRecord { ttl: 30, data: DnsRecordData::A(x, y, z, w) },
        IpAddress::V6(s0, s1, s2, s3, s4, s5, s6, s7) => DnsRecord {
            ttl: 30,
            data: DnsRecordData::Aaaa(s0, s1, s2, s3, s4, s5, s6, s7),
        },
    }
}

/// The records of an A answer from IPv4 candidates, or of an AAAA answer
/// from at least one IPv6 candidate, are one address record per candidate
/// among the first eight, in order, each with that candidate's address and
/// a 30-second TTL; the AAAA placeholder comes only when there is no
/// candidate.
pub proof fn law_address_answers(qtype: u16, c: Seq<NetAddress>)
    requires
        (qtype == QTYPE_A && all_of_family(c, true)) || (qtype == QTYPE_AAAA && c.len() > 0 && all_of_family(c, false)),
    ensures
        answer_records(qtype, c).len() == if c.len() > 8 { 8 } else { c.len() },
        forall|j: int| 0 <= j < answer_records(qtype, c).len() ==> #[trigger] answer_records(qtype, c)[j] == address_record(c[j]),
{
    let f = if c.len() > 8 { c.take(8) } else { c };
    let want = qtype == QTYPE_A;
    assert forall|j: int| 0 <= j < f.len() implies same_family(#[trigger] f[j], want) by {
        assert(f[j] == c[j]);
    }
    lemma_one_record_each(f, want);
    assert forall|j: int| 0 <= j < f.len() implies f[j] == c[j] by {}
}

/// Whether `a` is an IPv4 address exactly when `v4` is set.
pub open spec fn same_family(a: NetAddress, v4: bool) -> bool {
    (a.ip is V4) == v4
}

/// Address records of addresses all of the wanted family: one per address,
/// in order.
proof fn lemma_one_record_each(s: Seq<NetAddress>, want_v4: bool)
    requires
        forall|j: int| 0 <= j < s.len() ==> same_family(#[trigger] s[j], want_v4),
    ensures
        crate::dns::address_records(s, want_v4).len() == s.len(),
        forall|j: int| 0 <= j < s.len() ==> #[trigger] crate::dns::address_records(s, want_v4)[j] == address_record(s[j]),
    decreases s.len(),
{
    if s.len() > 0 {
        let p = s.drop_last();
        assert forall|j: int| 0 <= j < p.len() implies same_family(#[trigger] p[j], want_v4) by {
            assert(p[j] == s[j]);
        }
        lemma_one_record_each(p, want_v4);
        assert(s.last() == s[s.len() - 1]);
        assert forall|j: int| 0 <= j < s.len() implies #[trigger] crate::dns::address_records(s, want_v4)[j] == address_record(s[j]) by {
            if j < p.len() {
                assert(p[j] == s[j]);
            }
        }
    }
}

/// The peers a DNS query of type A or AAAA is answered from are all the
/// eligible peers of the listing, each once, in the listing's order: the
/// addresses of the listing filtered by eligibility, so there are exactly
/// as many candidates as eligible peers, and every eligible peer is one.
pub proof fn law_candidates_complete(
    e: Seq<Node>,
    qtype: u16,
    include_all: bool,
    sub: Option<Seq<char>>,
    now: u64,
    default_port: u16,
)
    requires
        qtype == QTYPE_A || qtype == QTYPE_AAAA,
    ensures
        dns_candidates(e, qtype, include_all, sub, now, default_port) == e.filter(
            |n: Node| dns_eligible(n, qtype, include_all, sub, now, default_port),
        ).map_values(|n: Node| n.address),
        dns_candidates(e, qtype, include_all, sub, now, default_port).len() == e.filter(
            |n: Node| dns_eligible(n, qtype, include_all, sub, now, default_port),
        ).len(),
        forall|i: int|
            0 <= i < e.len() && dns_eligible(e[i], qtype, include_all, sub, now, default_port) ==> dns_candidates(
                e,
                qtype,
                include_all,
                sub,
                now,
                default_port,
            ).contains(#[trigger] e[i].address),
{
    let pred = |n: Node| dns_eligible(n, qtype, include_all, sub, now, default_port);
    lemma_eligible_is_filter(e, qtype, include_all, sub, now, default_port);
    assert forall|i: int| 0 <= i < e.len() && dns_eligible(e[i], qtype, include_all, sub, now, default_port) implies dns_candidates(
        e,
        qtype,
        include_all,
        sub,
        now,
        default_port,
    ).contains(#[trigger] e[i].address) by {
        e.filter_lemma(pred);
        assert(e.filter(pred).contains(e[i]));
        let k = choose|k: int| 0 <= k < e.filter(pred).len() && e.filter(pred)[k] == e[i];
        assert(e.filter(pred).map_values(|n: Node| n.address)[k] == e[i].address);
    }
}

/// The eligible addresses of a listing are its eligible peers' addresses, in order.
proof fn lemma_eligible_is_filter(
    e: Seq<Node>,
    qtype: u16,
    include_all: bool,
    sub: Option<Seq<char>>,
    now: u64,
    default_port: u16,
)
    ensures
        eligible_addresses(e, qtype, include_all, sub, now, default_port) == e.filter(
            |n: Node| dns_eligible(n, qtype, include_all, sub, now, default_port),
        ).map_values(|n: Node| n.address),
    decreases e.len(),
{
    let pred = |n: Node| dns_eligible(n, qtype, include_all, sub, now, default_port);
    reveal(Seq::filter);
    if e.len() == 0 {
        assert(e.filter(pred).map_values(|n: Node| n.address) =~= Seq::<NetAddress>::empty());
    } else {
        lemma_eligible_is_filter(e.drop_last(), qtype, include_all, sub, now, default_port);
        let f = e.drop_last().filter(pred);
        if pred(e.last()) {
            assert(f.push(e.last()).map_values(|n: Node| n.address) =~= f.map_values(|n: Node| n.address).push(
                e.last().address,
            ));
        }
    }
}

} // verus!
