//! The crawler's decisions: which known peers to start from, what a poll
//! of a peer does to the address book, and what a crawl round does next.

use vstd::prelude::*;
use crate::checkversion::{protocol_acceptable, version_acceptable, VersionChecker};
use crate::errors::{error_text, TondiSeederError};
use crate::manager::{add_all, after_attempt, book_after_attempt, count_new, marked_good, update_at, AddressManager, Node};
use crate::netaddr::{key_of, parse_ipv4, parse_port, read_ipv4, read_port, NetAddress, NodeKey};
use crate::text::{decimal_text, chars_of, lemma_split_nonempty, opt_str_view, split, split_chars};

verus! {

/// Counters of the crawler's polls.
#[derive(Clone, Debug)]
pub struct CrawlerStats {
    pub total_peers_polled: u64,
    pub successful_polls: u64,
    pub failed_polls: u64,
    pub addresses_discovered: u64,
    /// When the last poll ended, in nanoseconds since the Unix epoch.
    pub last_poll_time: Option<u64>,
}

impl CrawlerStats {
    /// No poll yet.
    pub fn new() -> (r: CrawlerStats)
        ensures
            r.total_peers_polled == 0,
            r.successful_polls == 0,
            r.failed_polls == 0,
            r.addresses_discovered == 0,
            r.last_poll_time is None,
    {
        CrawlerStats {
            total_peers_polled: 0,
            successful_polls: 0,
            failed_polls: 0,
            addresses_discovered: 0,
            last_poll_time: None,
        }
    }

    /// Records a successful poll that found `addresses_count` addresses.
    pub fn record_poll_success(&mut self, addresses_count: usize)
        requires
            old(self).total_peers_polled < u64::MAX,
            old(self).successful_polls < u64::MAX,
            old(self).addresses_discovered + addresses_count <= u64::MAX,
        ensures
            final(self).total_peers_polled == old(self).total_peers_polled + 1,
            final(self).successful_polls == old(self).successful_polls + 1,
            final(self).failed_polls == old(self).failed_polls,
            final(self).addresses_discovered == old(self).addresses_discovered + addresses_count,
            final(self).last_poll_time is Some,
    {
        self.total_peers_polled = self.total_peers_polled + 1;
        self.successful_polls = self.successful_polls + 1;
        self.addresses_discovered = self.addresses_discovered + addresses_count as u64;
        self.last_poll_time = Some(crate::clock::now_nanos());
    }

    /// Records a failed poll.
    pub fn record_poll_failure(&mut self)
        requires
            old(self).total_peers_polled < u64::MAX,
            old(self).failed_polls < u64::MAX,
        ensures
            final(self).total_peers_polled == old(self).total_peers_polled + 1,
            final(self).successful_polls == old(self).successful_polls,
            final(self).failed_polls == old(self).failed_polls + 1,
            final(self).addresses_discovered == old(self).addresses_discovered,
            final(self).last_poll_time is Some,
    {
        self.total_peers_polled = self.total_peers_polled + 1;
        self.failed_polls = self.failed_polls + 1;
        self.last_poll_time = Some(crate::clock::now_nanos());
    }
}

/// One known peer as written in the configuration, `ip:port`: exactly one
/// colon, a dotted IPv4 address before it and a port after it. (An IPv6
/// address holds colons, so it never reads here.)
pub open spec fn parse_peer(piece: Seq<char>) -> Option<NetAddress> {
    let parts = split(piece, ':');
    if parts.len() == 2 && parse_ipv4(parts[0]) is Some && parse_port(parts[1]) is Some {
        Some(NetAddress { ip: parse_ipv4(parts[0])->0, port: parse_port(parts[1])->0 })
    } else {
        None
    }
}

/// The peers that read, in order, out of comma-separated pieces.
pub open spec fn parse_peer_list(pieces: Seq<Seq<char>>) -> Seq<NetAddress>
    decreases pieces.len(),
{
    if pieces.len() == 0 {
        Seq::<NetAddress>::empty()
    } else {
        let r = parse_peer_list(pieces.drop_last());
        match parse_peer(pieces.last()) {
            Some(a) => r.push(a),
            None => r,
        }
    }
}

/// The known peers of a comma-separated list; pieces that do not read are skipped.
pub open spec fn known_peers_of(list: Seq<char>) -> Seq<NetAddress> {
    parse_peer_list(split(list, ','))
}

/// Reads one `ip:port` piece.
pub fn read_peer(piece: &Vec<char>) -> (r: Option<NetAddress>)
    ensures
        r == parse_peer(piece@),
{
    let parts = split_chars(piece, ':');
    proof {
        lemma_split_nonempty(piece@, ':');
    }
    let ghost p = split(piece@, ':');
    assert(parts@.len() == p.len());
    if parts.len() != 2 {
        return None;
    }
    assert(parts@[0]@ == p[0]);
    assert(parts@[1]@ == p[1]);
    let ip = read_ipv4(&parts[0]);
    let port = read_port(&parts[1]);
    match (ip, port) {
        (Some(ip), Some(port)) => Some(NetAddress { ip, port }),
        _ => None,
    }
}

/// Reads a comma-separated list of known peers.
pub fn parse_known_peers(known_peers: &str) -> (r: Vec<NetAddress>)
    ensures
        r@ == known_peers_of(known_peers@),
{
    let chars = chars_of(known_peers);
    let pieces = split_chars(&chars, ',');
    let ghost pv = pieces@.map_values(|p: Vec<char>| p@);
    let mut r: Vec<NetAddress> = Vec::new();
    let mut i: usize = 0;
    while i < pieces.len()
        invariant
            i <= pieces@.len(),
            pv == pieces@.map_values(|p: Vec<char>| p@),
            pv == split(known_peers@, ','),
            r@ == parse_peer_list(pv.take(i as int)),
        decreases pieces@.len() - i,
    {
        assert(pv.take(i + 1).drop_last() =~= pv.take(i as int));
        assert(pv.take(i + 1).last() == pieces@[i as int]@);
        match read_peer(&pieces[i]) {
            Some(a) => r.push(a),
            None => {},
        }
        i = i + 1;
    }
    assert(pv.take(pieces@.len() as int) =~= pv);
    r
}

/// A known peer after it is marked tried and reached at `now`, with no
/// user agent or subnetwork.
pub open spec fn marked_known(n: Node, now: u64) -> Node {
    Node { last_attempt: now, last_success: now, user_agent: None, subnetwork_id: None, ..n }
}

/// The book after each of `peers`, in order, is marked tried and reached at `now`.
pub open spec fn mark_all_known(m: Map<NodeKey, Node>, peers: Seq<NetAddress>, now: u64) -> Map<NodeKey, Node>
    decreases peers.len(),
{
    if peers.len() == 0 {
        m
    } else {
        update_at(mark_all_known(m, peers.drop_last(), now), peers.last(), |n: Node| marked_known(n, now))
    }
}

/// Seeds the book with the known peers of the configuration at `now`:
/// each that reads and is routable is added, then every peer read is marked
/// tried and reached. Returns how many were new.
pub fn initialize_known_peers_at(manager: &mut AddressManager, known_peers: Option<&str>, default_port: u16, now: u64) -> (r: usize)
    ensures
        final(manager).default_port_spec() == old(manager).default_port_spec(),
        final(manager).peers_file_spec() == old(manager).peers_file_spec(),
        known_peers is None ==> final(manager).book() == old(manager).book() && r == 0,
        known_peers matches Some(s) ==> final(manager).book() == mark_all_known(
            add_all(old(manager).book(), known_peers_of(s@), false, now),
            known_peers_of(s@),
            now,
        ) && r == count_new(old(manager).book(), known_peers_of(s@), false, now),
{
    proof {
        use_type_invariant(&*manager);
    }
    match known_peers {
        None => 0,
        Some(s) => {
            let peers = parse_known_peers(s);
            if peers.len() == 0 {
                assert(known_peers_of(s@) =~= Seq::<NetAddress>::empty());
                return 0;
            }
            let added = manager.add_addresses_at(copy_addresses(&peers), default_port, false, now);
            let ghost base = manager.book();
            let mut i: usize = 0;
            while i < peers.len()
                invariant
                    i <= peers@.len(),
                    manager.default_port_spec() == old(manager).default_port_spec(),
                    manager.peers_file_spec() == old(manager).peers_file_spec(),
                    manager.book() == mark_all_known(base, peers@.take(i as int), now),
                decreases peers@.len() - i,
            {
                let p = peers[i];
                let ghost before = manager.book();
                manager.attempt_at(&p, now);
                manager.good_at(&p, None, None, now);
                proof {
                    assert(peers@.take(i + 1).drop_last() =~= peers@.take(i as int));
                    assert(peers@.take(i + 1).last() == p);
                    let expected = update_at(before, p, |n: Node| marked_known(n, now));
                    if before.contains_key(key_of(p)) {
                        assert(manager.book().dom() =~= expected.dom());
                        assert forall|k: NodeKey| #[trigger] manager.book().contains_key(k) implies manager.book()[k]
                            == expected[k] by {
                            if k == key_of(p) {
                                assert(manager.book()[k].user_agent is None);
                                assert(manager.book()[k].subnetwork_id is None);
                            }
                        }
                        assert(manager.book() =~= expected);
                    } else {
                        assert(manager.book() =~= expected);
                    }
                }
                i = i + 1;
            }
            assert(peers@.take(peers@.len() as int) =~= peers@);
            added
        },
    }
}

/// Seeds the book with the known peers of the configuration, now.
pub fn initialize_known_peers(manager: &mut AddressManager, known_peers: Option<&str>, default_port: u16) -> (r: usize)
    ensures
        final(manager).default_port_spec() == old(manager).default_port_spec(),
        final(manager).peers_file_spec() == old(manager).peers_file_spec(),
        known_peers is None ==> final(manager).book() == old(manager).book() && r == 0,
        known_peers matches Some(s) ==> exists|now: u64| #[trigger] count_new(old(manager).book(), known_peers_of(s@), false, now) == r
            && final(manager).book() == mark_all_known(
            add_all(old(manager).book(), known_peers_of(s@), false, now),
            known_peers_of(s@),
            now,
        ),
{
    proof {
        use_type_invariant(&*manager);
    }
    let now = crate::clock::now_nanos();
    initialize_known_peers_at(manager, known_peers, default_port, now)
}

/// A copy of a list of addresses.
fn copy_addresses(v: &Vec<NetAddress>) -> (r: Vec<NetAddress>)
    ensures
        r@ == v@,
{
    let mut r: Vec<NetAddress> = Vec::new();
    let mut i: usize = 0;
    while i < v.len()
        invariant
            i <= v@.len(),
            r@ == v@.take(i as int),
        decreases v@.len() - i,
    {
        r.push(v[i]);
        i = i + 1;
        assert(r@ =~= v@.take(i as int));
    }
    assert(v@.take(v@.len() as int) =~= v@);
    r
}

/// What a connection to a peer gave: the version it reported and the
/// addresses it sent, or the error text of the failed connection.
#[derive(Debug)]
pub enum PollOutcome {
    Connected { protocol_version: u32, user_agent: String, addresses: Vec<NetAddress> },
    Failed { error: String },
}

/// Records in the book what a poll of `address` (written `peer_address`)
/// gave, at `now`. A failed connection is recorded as a failed attempt and
/// reported. A connection is recorded as a successful attempt; then a
/// protocol version out of bounds, or a user agent below the minimum, is
/// recorded as a failed attempt and reported; otherwise the addresses sent
/// are added (routable ones only) and the peer is marked reached with its
/// user agent. Returns how many addresses were new.
pub fn handle_poll_outcome_at(
    manager: &mut AddressManager,
    address: &NetAddress,
    peer_address: &str,
    outcome: PollOutcome,
    min_proto_ver: u16,
    min_ua_ver: Option<&str>,
    default_port: u16,
    now: u64,
) -> (r: Result<usize, TondiSeederError>)
    ensures
        final(manager).default_port_spec() == old(manager).default_port_spec(),
        final(manager).peers_file_spec() == old(manager).peers_file_spec(),
        poll_result(old(manager).book(), *address, peer_address@, outcome, min_proto_ver, opt_str_view(min_ua_ver), now, final(manager).book(), r),
{
    proof {
        use_type_invariant(&*manager);
    }
    match outcome {
        PollOutcome::Failed { error } => {
            let mut t = "Could not connect to ".to_owned();
            t.append(peer_address);
            t.append(": ");
            t.append(error.as_str());
            manager.record_connection_result_at(address, false, Some(error), now);
            Err(TondiSeederError::ConnectionFailed(t))
        },
        PollOutcome::Connected { protocol_version, user_agent, addresses } => {
            manager.record_connection_result_at(address, true, None, now);
            match VersionChecker::check_protocol_version(protocol_version, min_proto_ver) {
                Err(e) => {
                    let text = e.message();
                    let mut recorded = "Protocol version validation failed: ".to_owned();
                    recorded.append(text.as_str());
                    let mut t = "Peer ".to_owned();
                    t.append(peer_address);
                    t.append(" protocol version validation failed: ");
                    t.append(text.as_str());
                    proof {
                        let why = "Validation error: "@ + protocol_refusal_text(protocol_version, min_proto_ver);
                        assert(text@ =~= why);
                        assert(recorded@ =~= "Protocol version validation failed: "@ + why);
                        assert(t@ =~= "Peer "@ + peer_address@ + " protocol version validation failed: "@ + why);
                    }
                    manager.record_connection_result_at(address, false, Some(recorded), now);
                    return Err(TondiSeederError::Validation(t));
                },
                Ok(()) => {},
            }
            match min_ua_ver {
                Some(min) => match VersionChecker::check_version(min, user_agent.as_str()) {
                    Err(e) => {
                        let text = e.message();
                        let mut recorded = "User agent validation failed: ".to_owned();
                        recorded.append(text.as_str());
                        let mut t = "Peer ".to_owned();
                        t.append(peer_address);
                        t.append(" user agent validation failed: ");
                        t.append(text.as_str());
                        proof {
                            let why = "Validation error: User agent version "@ + user_agent@
                                + " is below minimum required version "@ + min@;
                            assert("Validation error: User agent version "@ =~= "Validation error: "@ + "User agent version "@) by {
                                reveal_strlit("Validation error: User agent version ");
                                reveal_strlit("Validation error: ");
                                reveal_strlit("User agent version ");
                            }
                            assert(text@ =~= why);
                            assert(recorded@ =~= "User agent validation failed: "@ + why);
                            assert(t@ =~= "Peer "@ + peer_address@ + " user agent validation failed: "@ + why);
                        }
                        manager.record_connection_result_at(address, false, Some(recorded), now);
                        return Err(TondiSeederError::Validation(t));
                    },
                    Ok(()) => {},
                },
                None => {},
            }
            let added = manager.add_addresses_at(addresses, default_port, false, now);
            manager.good_at(address, Some(user_agent.as_str()), None, now);
            Ok(added)
        },
    }
}

/// Records in the book what a poll gave, now.
pub fn handle_poll_outcome(
    manager: &mut AddressManager,
    address: &NetAddress,
    peer_address: &str,
    outcome: PollOutcome,
    min_proto_ver: u16,
    min_ua_ver: Option<&str>,
    default_port: u16,
) -> (r: Result<usize, TondiSeederError>)
    ensures
        final(manager).default_port_spec() == old(manager).default_port_spec(),
        final(manager).peers_file_spec() == old(manager).peers_file_spec(),
        exists|now: u64| #[trigger] poll_result(old(manager).book(), *address, peer_address@, outcome, min_proto_ver, opt_str_view(min_ua_ver), now, final(manager).book(), r),
{
    proof {
        use_type_invariant(&*manager);
    }
    let now = crate::clock::now_nanos();
    handle_poll_outcome_at(manager, address, peer_address, outcome, min_proto_ver, min_ua_ver, default_port, now)
}

/// Why a protocol version is refused.
pub open spec fn protocol_refusal_text(peer_version: u32, min_version: u16) -> Seq<char> {
    if peer_version < min_version {
        "Protocol version "@ + decimal_text(peer_version as nat) + " is below minimum required version "@
            + decimal_text(min_version as nat)
    } else {
        "Protocol version "@ + decimal_text(peer_version as nat) + " seems unreasonably high"@
    }
}

/// `after` and `r` are what a poll of `a` that gave `outcome` leaves in the
/// book `before` and returns, at `now`.
pub open spec fn poll_result(
    before: Map<NodeKey, Node>,
    a: NetAddress,
    peer: Seq<char>,
    outcome: PollOutcome,
    min_proto_ver: u16,
    min_ua_ver: Option<Seq<char>>,
    now: u64,
    after: Map<NodeKey, Node>,
    r: Result<usize, TondiSeederError>,
) -> bool {
    match outcome {
        PollOutcome::Failed { error } => {
            &&& after == book_after_attempt(before, a, false, Some(error), now)
            &&& r matches Err(TondiSeederError::ConnectionFailed(t))
            &&& t@ == "Could not connect to "@ + peer + ": "@ + error@
        },
        PollOutcome::Connected { protocol_version, user_agent, addresses } => {
            let reached = book_after_attempt(before, a, true, None, now);
            if !protocol_acceptable(protocol_version, min_proto_ver) {
                let why = "Validation error: "@ + protocol_refusal_text(protocol_version, min_proto_ver);
                &&& exists|recorded: String| recorded@ == "Protocol version validation failed: "@ + why
                    && #[trigger] book_after_attempt(reached, a, false, Some(recorded), now) == after
                &&& r matches Err(TondiSeederError::Validation(t))
                &&& t@ == "Peer "@ + peer + " protocol version validation failed: "@ + why
            } else if min_ua_ver is Some && !version_acceptable(min_ua_ver->0, user_agent@) {
                let why = "Validation error: User agent version "@ + user_agent@
                    + " is below minimum required version "@ + min_ua_ver->0;
                &&& exists|recorded: String| recorded@ == "User agent validation failed: "@ + why
                    && #[trigger] book_after_attempt(reached, a, false, Some(recorded), now) == after
                &&& r matches Err(TondiSeederError::Validation(t))
                &&& t@ == "Peer "@ + peer + " user agent validation failed: "@ + why
            } else {
                let grown = add_all(reached, addresses@, false, now);
                &&& r == Ok::<usize, TondiSeederError>(count_new(reached, addresses@, false, now) as usize)
                &&& (grown.contains_key(key_of(a)) ==> marked_good(grown, a, Some(user_agent@), None, now, after))
                &&& (!grown.contains_key(key_of(a)) ==> after == grown)
            }
        },
    }
}

/// What a crawl round is doing: selecting peers, or selecting again after
/// seeding from DNS.
#[derive(Clone, Copy, Debug, PartialEq, Eq, Structural)]
pub enum CrawlPhase {
    Selecting,
    Reselecting,
}

/// What the crawler does next.
#[derive(Clone, Copy, Debug, PartialEq, Eq, Structural)]
pub enum CrawlAction {
    /// Poll the peers just selected.
    PollPeers,
    /// Ask the DNS seeders for addresses, then select again.
    SeedFromDns,
    /// Sleep this many seconds, then start a new round.
    Sleep(u64),
    /// Start a new round at once.
    NextRound,
}

/// Below this many known peers, an empty selection triggers DNS seeding.
pub const DNS_SEEDING_THRESHOLD: usize = 1000;

/// The crawler's next step, given the phase of the round, how many peers
/// were selected and how many the book holds: poll a non-empty selection;
/// on an empty one, seed from DNS when fewer than 1000 peers are known, else
/// sleep 30 seconds. After seeding, an empty selection sleeps 10 seconds and
/// a non-empty one starts the next round (the peers selected before seeding,
/// none, are what the round polls).
pub fn next_crawl_action(phase: CrawlPhase, selected: usize, address_count: usize) -> (r: CrawlAction)
    ensures
        phase == CrawlPhase::Selecting && selected > 0 ==> r == CrawlAction::PollPeers,
        phase == CrawlPhase::Selecting && selected == 0 && address_count < DNS_SEEDING_THRESHOLD ==> r
            == CrawlAction::SeedFromDns,
        phase == CrawlPhase::Selecting && selected == 0 && address_count >= DNS_SEEDING_THRESHOLD ==> r
            == CrawlAction::Sleep(30),
        phase == CrawlPhase::Reselecting && selected == 0 ==> r == CrawlAction::Sleep(10),
        phase == CrawlPhase::Reselecting && selected > 0 ==> r == CrawlAction::NextRound,
{
    match phase {
        CrawlPhase::Selecting => {
            if selected > 0 {
                CrawlAction::PollPeers
            } else if address_count < DNS_SEEDING_THRESHOLD {
                CrawlAction::SeedFromDns
            } else {
                CrawlAction::Sleep(30)
            }
        },
        CrawlPhase::Reselecting => {
            if selected == 0 {
                CrawlAction::Sleep(10)
            } else {
                CrawlAction::NextRound
            }
        },
    }
}

/// The network adapter that polls the `i`-th peer of a round: round robin.
pub fn adapter_index(i: usize, adapters: usize) -> (r: usize)
    requires
        adapters > 0,
    ensures
        r == i % adapters,
        r < adapters,
{
    i % adapters
}

} // verus!
