//! What the gRPC service reports: addresses of good peers and tallies of
//! the address book.

use vstd::prelude::*;
use crate::manager::{enumerates, AddressManager, Node};
use crate::netaddr::{IpAddress, NetAddress};
use crate::selection::{dns_candidates, dns_eligible, eligible_addresses, lemma_eligible_addresses_members, QTYPE_A, QTYPE_AAAA};
use crate::clock::NANOS_PER_SEC;
use crate::text::opt_str_view;

verus! {

/// Number of addresses a request with no limit gets.
pub const DEFAULT_ADDRESS_LIMIT: usize = 100;

/// The first `limit` of `s`, or all of it when shorter.
pub open spec fn truncated(s: Seq<NetAddress>, limit: int) -> Seq<NetAddress> {
    if s.len() > limit {
        s.take(limit)
    } else {
        s
    }
}

/// `acc` followed by the addresses of `s` of the wanted family, in order,
/// while fewer than `limit` addresses are held.
pub open spec fn fill(acc: Seq<NetAddress>, s: Seq<NetAddress>, want_v4: bool, limit: int) -> Seq<NetAddress>
    decreases s.len(),
{
    if s.len() == 0 {
        acc
    } else {
        let a = fill(acc, s.drop_last(), want_v4, limit);
        if (s.last().ip is V4) == want_v4 && a.len() < limit {
            a.push(s.last())
        } else {
            a
        }
    }
}

/// The addresses of a listing's good and stale IPv4 peers, then of its IPv6
/// peers, cut to `limit`.
pub fn get_addresses_at(manager: &AddressManager, limit: usize, now: u64) -> (r: Vec<NetAddress>)
    ensures
        exists|e4: Seq<Node>, e6: Seq<Node>|
            #![trigger enumerates(e4, manager.book()), enumerates(e6, manager.book())]
            enumerates(e4, manager.book()) && enumerates(e6, manager.book()) && r@ == truncated(
                dns_candidates(e4, QTYPE_A, true, None, now, manager.default_port_spec()) + dns_candidates(
                    e6,
                    QTYPE_AAAA,
                    true,
                    None,
                    now,
                    manager.default_port_spec(),
                ),
                limit as int,
            ),
{
    proof {
        use_type_invariant(&*manager);
    }
    let mut r = manager.good_addresses_at(QTYPE_A, true, None, now);
    let b = manager.good_addresses_at(QTYPE_AAAA, true, None, now);
    let ghost a = r@;
    let mut i: usize = 0;
    while i < b.len()
        invariant
            i <= b@.len(),
            r@ == a + b@.take(i as int),
        decreases b@.len() - i,
    {
        r.push(b[i]);
        i = i + 1;
        assert(r@ =~= a + b@.take(i as int));
    }
    assert(b@.take(b@.len() as int) =~= b@);
    r.truncate(limit);
    assert(r@ =~= truncated(a + b@, limit as int));
    r
}

/// The addresses a listing gives now.
pub fn get_addresses(manager: &AddressManager, limit: usize) -> (r: Vec<NetAddress>)
    ensures
        exists|now: u64, e4: Seq<Node>, e6: Seq<Node>|
            #![trigger enumerates(e4, manager.book()), enumerates(e6, manager.book()), dns_candidates(e4, QTYPE_A, true, None, now, manager.default_port_spec())]
            enumerates(e4, manager.book()) && enumerates(e6, manager.book()) && r@ == truncated(
                dns_candidates(e4, QTYPE_A, true, None, now, manager.default_port_spec()) + dns_candidates(
                    e6,
                    QTYPE_AAAA,
                    true,
                    None,
                    now,
                    manager.default_port_spec(),
                ),
                limit as int,
            ),
{
    proof {
        use_type_invariant(&*manager);
    }
    let now = crate::clock::now_nanos();
    get_addresses_at(manager, limit, now)
}

/// Appends to `out` the addresses of `s` of the wanted family while fewer
/// than `limit` are held.
fn fill_from(out: &mut Vec<NetAddress>, s: &Vec<NetAddress>, want_v4: bool, limit: usize)
    ensures
        final(out)@ == fill(old(out)@, s@, want_v4, limit as int),
{
    let ghost start = out@;
    let mut i: usize = 0;
    while i < s.len()
        invariant
            i <= s@.len(),
            out@ == fill(start, s@.take(i as int), want_v4, limit as int),
        decreases s@.len() - i,
    {
        assert(s@.take(i + 1).drop_last() =~= s@.take(i as int));
        assert(s@.take(i + 1).last() == s@[i as int]);
        if s[i].ip.is_ipv4() == want_v4 && out.len() < limit {
            out.push(s[i]);
        }
        i = i + 1;
    }
    assert(s@.take(s@.len() as int) =~= s@);
}

/// Every address of `s` is of the wanted family.
pub open spec fn all_of_family(s: Seq<NetAddress>, want_v4: bool) -> bool {
    forall|j: int| 0 <= j < s.len() ==> ((#[trigger] s[j]).ip is V4) == want_v4
}

/// Filling from addresses all of the wanted family takes them in order
/// until the limit: the list and the addresses, cut to the limit.
pub proof fn lemma_fill_family(acc: Seq<NetAddress>, s: Seq<NetAddress>, want_v4: bool, limit: int)
    requires
        acc.len() <= limit,
        all_of_family(s, want_v4),
    ensures
        fill(acc, s, want_v4, limit) == truncated(acc + s, limit),
    decreases s.len(),
{
    if s.len() == 0 {
        assert(acc + s =~= acc);
    } else {
        let p = s.drop_last();
        assert forall|j: int| 0 <= j < p.len() implies ((#[trigger] p[j]).ip is V4) == want_v4 by {
            assert(p[j] == s[j]);
        }
        lemma_fill_family(acc, p, want_v4, limit);
        assert((acc + p).push(s.last()) =~= acc + s);
        assert(s.last() == s[s.len() - 1]);
        if (acc + p).len() > limit {
            assert((acc + s).take(limit) =~= (acc + p).take(limit));
        } else if (acc + p).len() == limit {
            assert((acc + s).take(limit) =~= acc + p);
        }
    }
}

/// The candidates of an A query are IPv4 addresses, of an AAAA query IPv6
/// addresses.
pub proof fn lemma_candidates_family(
    e: Seq<Node>,
    qtype: u16,
    include_all: bool,
    sub: Option<Seq<char>>,
    now: u64,
    default_port: u16,
)
    requires
        qtype == QTYPE_A || qtype == QTYPE_AAAA,
    ensures
        all_of_family(dns_candidates(e, qtype, include_all, sub, now, default_port), qtype == QTYPE_A),
{
    lemma_eligible_addresses_members(e, qtype, include_all, sub, now, default_port);
    let c = dns_candidates(e, qtype, include_all, sub, now, default_port);
    assert forall|j: int| 0 <= j < c.len() implies ((#[trigger] c[j]).ip is V4) == (qtype == QTYPE_A) by {
        let i = choose|i: int|
            0 <= i < e.len() && e[i].address == #[trigger] eligible_addresses(e, qtype, include_all, sub, now, default_port)[j]
                && dns_eligible(e[i], qtype, include_all, sub, now, default_port);
    }
}

/// The addresses a service request gets: those of the families asked for,
/// IPv4 first, cut to the limit.
pub proof fn law_service_addresses(c4: Seq<NetAddress>, c6: Seq<NetAddress>, include_ipv4: bool, include_ipv6: bool, limit: int)
    requires
        all_of_family(c4, true),
        all_of_family(c6, false),
        limit >= 0,
    ensures
        ({
            let first = if include_ipv4 {
                fill(Seq::<NetAddress>::empty(), c4, true, limit)
            } else {
                Seq::<NetAddress>::empty()
            };
            let all = if include_ipv6 {
                fill(first, c6, false, limit)
            } else {
                first
            };
            all == truncated(
                (if include_ipv4 { c4 } else { Seq::<NetAddress>::empty() }) + (if include_ipv6 { c6 } else { Seq::<NetAddress>::empty() }),
                limit,
            )
        }),
{
    let e = Seq::<NetAddress>::empty();
    let w4 = if include_ipv4 { c4 } else { e };
    let w6 = if include_ipv6 { c6 } else { e };
    let first = truncated(w4, limit);
    if include_ipv4 {
        lemma_fill_family(e, c4, true, limit);
        assert(e + c4 =~= c4);
    }
    if include_ipv6 {
        lemma_fill_family(first, c6, false, limit);
        if w4.len() > limit {
            assert(first.len() == limit);
            assert((first + c6).take(limit) =~= first);
            assert((w4 + c6).take(limit) =~= first);
        } else {
            assert(first == w4);
        }
    } else {
        assert(w4 + w6 =~= w4);
    }
}

/// The addresses the service hands out for a request: the limit is 100
/// when the request gives none (0); first, when asked, the good and stale
/// IPv4 peers, then, when asked, the IPv6 ones, while fewer than the limit
/// are held. Every subnetwork is included, whatever subnetwork is named.
pub fn service_addresses_at(
    manager: &AddressManager,
    limit: u32,
    include_ipv4: bool,
    include_ipv6: bool,
    subnetwork_id: &str,
    now: u64,
) -> (r: Vec<NetAddress>)
    ensures
        ({
            let lim: int = if limit == 0 { 100 } else { limit as int };
            let sub = if subnetwork_id@.len() == 0 { None::<Seq<char>> } else { Some(subnetwork_id@) };
            exists|e4: Seq<Node>, e6: Seq<Node>|
                #![trigger enumerates(e4, manager.book()), enumerates(e6, manager.book())]
                enumerates(e4, manager.book()) && enumerates(e6, manager.book()) && {
                    let first = if include_ipv4 {
                        fill(Seq::<NetAddress>::empty(), dns_candidates(e4, QTYPE_A, true, sub, now, manager.default_port_spec()), true, lim)
                    } else {
                        Seq::<NetAddress>::empty()
                    };
                    r@ == if include_ipv6 {
                        fill(first, dns_candidates(e6, QTYPE_AAAA, true, sub, now, manager.default_port_spec()), false, lim)
                    } else {
                        first
                    }
                } && r@ == truncated(
                    (if include_ipv4 {
                        dns_candidates(e4, QTYPE_A, true, sub, now, manager.default_port_spec())
                    } else {
                        Seq::<NetAddress>::empty()
                    }) + (if include_ipv6 {
                        dns_candidates(e6, QTYPE_AAAA, true, sub, now, manager.default_port_spec())
                    } else {
                        Seq::<NetAddress>::empty()
                    }),
                    lim,
                )
        }),
{
    proof {
        use_type_invariant(&*manager);
    }
    let lim: usize = if limit == 0 {
        DEFAULT_ADDRESS_LIMIT
    } else {
        limit as usize
    };
    let sub: Option<&str> = if subnetwork_id.is_empty() {
        None
    } else {
        Some(subnetwork_id)
    };
    let mut r: Vec<NetAddress> = Vec::new();
    let v4 = manager.good_addresses_at(QTYPE_A, true, sub, now);
    let v6 = manager.good_addresses_at(QTYPE_AAAA, true, sub, now);
    if include_ipv4 {
        fill_from(&mut r, &v4, true, lim);
    }
    if include_ipv6 {
        fill_from(&mut r, &v6, false, lim);
    }
    proof {
        let ghost sv = if subnetwork_id@.len() == 0 { None::<Seq<char>> } else { Some(subnetwork_id@) };
        assert(opt_str_view(sub) == sv);
        let e4 = choose|e4: Seq<Node>| #[trigger] enumerates(e4, manager.book()) && v4@ == dns_candidates(
            e4, QTYPE_A, true, sv, now, manager.default_port_spec());
        let e6 = choose|e6: Seq<Node>| #[trigger] enumerates(e6, manager.book()) && v6@ == dns_candidates(
            e6, QTYPE_AAAA, true, sv, now, manager.default_port_spec());
        lemma_candidates_family(e4, QTYPE_A, true, sv, now, manager.default_port_spec());
        lemma_candidates_family(e6, QTYPE_AAAA, true, sv, now, manager.default_port_spec());
        law_service_addresses(v4@, v6@, include_ipv4, include_ipv6, lim as int);
    }
    r
}

/// Tallies of the address book.
#[derive(Clone, Copy, Debug, PartialEq, Eq, Structural)]
pub struct AddressStats {
    pub total_addresses: u64,
    pub ipv4_addresses: u64,
    pub ipv6_addresses: u64,
    /// Peers that connected less than an hour before.
    pub good_addresses: u64,
    /// The other peers.
    pub stale_addresses: u64,
}

/// A peer counts as good in the tallies when it connected less than an
/// hour (3600 whole seconds) before `now`, and not when that time is later
/// than `now`.
pub open spec fn recently_reached(n: Node, now: u64) -> bool {
    now >= n.last_success && (now - n.last_success) / (NANOS_PER_SEC as int) < 3600
}

/// The tallies of a listing.
pub open spec fn tally(e: Seq<Node>, now: u64) -> (nat, nat, nat, nat)
    decreases e.len(),
{
    if e.len() == 0 {
        (0, 0, 0, 0)
    } else {
        let (v4, v6, good, stale) = tally(e.drop_last(), now);
        let n = e.last();
        let (v4, v6) = if n.address.ip is V4 { (v4 + 1, v6) } else { (v4, v6 + 1) };
        if recently_reached(n, now) {
            (v4, v6, good + 1, stale)
        } else {
            (v4, v6, good, stale + 1)
        }
    }
}

/// The tallies never exceed the listing's length.
pub proof fn lemma_tally_bounded(e: Seq<Node>, now: u64)
    ensures
        tally(e, now).0 + tally(e, now).1 == e.len(),
        tally(e, now).2 + tally(e, now).3 == e.len(),
    decreases e.len(),
{
    if e.len() > 0 {
        lemma_tally_bounded(e.drop_last(), now);
    }
}

/// The book's tallies at `now`: how many peers, how many of each family,
/// and how many connected less than an hour before.
pub fn address_stats_at(manager: &AddressManager, now: u64) -> (r: AddressStats)
    ensures
        r.total_addresses == manager.book().len(),
        exists|e: Seq<Node>|
            #![trigger enumerates(e, manager.book())]
            enumerates(e, manager.book()) && r.ipv4_addresses == tally(e, now).0 && r.ipv6_addresses == tally(e, now).1
                && r.good_addresses == tally(e, now).2 && r.stale_addresses == tally(e, now).3,
{
    proof {
        use_type_invariant(&*manager);
    }
    let total = manager.address_count();
    let nodes = manager.get_all_nodes();
    let mut v4: u64 = 0;
    let mut v6: u64 = 0;
    let mut good: u64 = 0;
    let mut stale: u64 = 0;
    let mut i: usize = 0;
    while i < nodes.len()
        invariant
            i <= nodes@.len(),
            nodes@.len() <= usize::MAX,
            (v4 as nat, v6 as nat, good as nat, stale as nat) == tally(nodes@.take(i as int), now),
        decreases nodes@.len() - i,
    {
        proof {
            lemma_tally_bounded(nodes@.take(i as int), now);
        }
        assert(nodes@.take(i + 1).drop_last() =~= nodes@.take(i as int));
        assert(nodes@.take(i + 1).last() == nodes@[i as int]);
        let n = &nodes[i];
        if n.address.ip.is_ipv4() {
            v4 = v4 + 1;
        } else {
            v6 = v6 + 1;
        }
        if now >= n.last_success && (now - n.last_success) / NANOS_PER_SEC < 3600 {
            good = good + 1;
        } else {
            stale = stale + 1;
        }
        i = i + 1;
    }
    assert(nodes@.take(nodes@.len() as int) =~= nodes@);
    AddressStats {
        total_addresses: total as u64,
        ipv4_addresses: v4,
        ipv6_addresses: v6,
        good_addresses: good,
        stale_addresses: stale,
    }
}

} // verus!
