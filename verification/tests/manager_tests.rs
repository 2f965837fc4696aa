use tondi_seeder::crawler::{adapter_index, handle_poll_outcome_at, initialize_known_peers_at, next_crawl_action, parse_known_peers, CrawlAction, CrawlPhase, CrawlerStats, PollOutcome};
use tondi_seeder::errors::TondiSeederError;
use tondi_seeder::grpc::{address_stats_at, get_addresses, get_addresses_at, service_addresses_at};
use tondi_seeder::manager::{AddressManager, Node};
use tondi_seeder::netaddr::{is_routable, IpAddress, NetAddress};

const SEC: u64 = 1_000_000_000;
const PORT: u16 = 16111;
/// A time long after the epoch, as the clock gives it.
const T0: u64 = 1_700_000_000 * SEC;

fn v4(a: u8, b: u8, c: u8, d: u8, port: u16) -> NetAddress {
    NetAddress::new(IpAddress::V4(a, b, c, d), port)
}

fn v6(s0: u16, s7: u16, port: u16) -> NetAddress {
    NetAddress::new(IpAddress::V6(s0, 0, 0, 0, 0, 0, 0, s7), port)
}

fn book() -> AddressManager {
    AddressManager::new("data/peers.json".to_string(), PORT)
}

fn node_of(m: &AddressManager, a: &NetAddress) -> Node {
    m.get_all_nodes().into_iter().find(|n| n.address == *a).expect("known")
}

#[test]
fn test_get_addresses() {
    let m = book();
    let addresses = get_addresses(&m, 10);
    assert_eq!(addresses.len(), 0);
}

#[test]
fn routability_rules() {
    assert!(is_routable(&v4(8, 8, 8, 8, PORT)));
    assert!(!is_routable(&v4(8, 8, 8, 8, 0)));
    assert!(!is_routable(&v4(10, 1, 2, 3, PORT)));
    assert!(!is_routable(&v4(172, 16, 0, 1, PORT)));
    assert!(is_routable(&v4(172, 32, 0, 1, PORT)));
    assert!(!is_routable(&v4(192, 168, 1, 1, PORT)));
    assert!(!is_routable(&v4(127, 0, 0, 1, PORT)));
    assert!(!is_routable(&v4(0, 0, 0, 0, PORT)));
    assert!(!is_routable(&v4(224, 0, 0, 1, PORT)));
    assert!(!is_routable(&v4(255, 255, 255, 255, PORT)));
    assert!(!is_routable(&v4(169, 254, 3, 4, PORT)));
    assert!(!is_routable(&v4(192, 0, 2, 0, PORT)));
    assert!(!is_routable(&v4(192, 0, 2, 1, PORT)));
    assert!(!is_routable(&v4(198, 51, 100, 7, PORT)));
    assert!(!is_routable(&v4(203, 0, 113, 9, PORT)));
    assert!(!is_routable(&v4(198, 18, 7, 7, PORT)));
    assert!(!is_routable(&v4(198, 19, 0, 1, PORT)));
    assert!(is_routable(&v4(198, 20, 0, 1, PORT)));
    assert!(is_routable(&v4(192, 0, 3, 1, PORT)));
    assert!(is_routable(&v6(0x2a01, 1, PORT)));
    assert!(!is_routable(&v6(0, 1, PORT)));
    assert!(!is_routable(&v6(0, 0, PORT)));
    assert!(!is_routable(&v6(0xff02, 1, PORT)));
    assert!(!is_routable(&v6(0xfd00, 1, PORT)));
    assert!(!is_routable(&v6(0xfe80, 1, PORT)));
    assert!(!is_routable(&NetAddress::new(IpAddress::V6(0x2001, 0xdb8, 0, 0, 0, 0, 0, 0), PORT)));
    assert!(!is_routable(&NetAddress::new(IpAddress::V6(0x2001, 0xdb8, 0, 0, 0, 0, 0, 1), PORT)));
    assert!(!is_routable(&NetAddress::new(IpAddress::V6(0x2001, 0x2, 0, 5, 0, 0, 0, 1), PORT)));
    assert!(is_routable(&NetAddress::new(IpAddress::V6(0x2001, 0x2, 1, 0, 0, 0, 0, 1), PORT)));
}

#[test]
fn adding_addresses() {
    let mut m = book();
    let list = vec![
        v4(8, 8, 8, 8, PORT),
        v4(10, 0, 0, 1, PORT),
        v4(1, 1, 1, 1, 0),
        v4(8, 8, 8, 8, PORT),
        v6(0x2a01, 5, PORT),
    ];
    let added = m.add_addresses_at(list.clone(), PORT, false, 100 * SEC);
    assert_eq!(added, 2);
    assert_eq!(m.address_count(), 2);
    let n = node_of(&m, &v4(8, 8, 8, 8, PORT));
    assert_eq!(n.last_seen, 100 * SEC);
    assert_eq!(n.last_attempt, 100 * SEC);
    assert_eq!(n.last_success, 0);
    // Unroutable addresses come in when accepted; port 0 never does.
    let added = m.add_addresses_at(list, PORT, true, 200 * SEC);
    assert_eq!(added, 1);
    assert_eq!(m.address_count(), 3);
    let n = node_of(&m, &v4(8, 8, 8, 8, PORT));
    assert_eq!(n.last_seen, 200 * SEC);
    assert_eq!(n.last_attempt, 100 * SEC);
}

#[test]
fn attempts_and_successes() {
    let mut m = book();
    let a = v4(8, 8, 8, 8, PORT);
    m.add_addresses_at(vec![a], PORT, false, T0 + 10 * SEC);
    m.record_connection_result_at(&a, false, Some("refused".to_string()), T0 + 20 * SEC);
    let n = node_of(&m, &a);
    assert_eq!(n.connection_attempts, 1);
    assert_eq!(n.successful_connections, 0);
    assert_eq!(n.last_error.as_deref(), Some("refused"));
    // Never reached: its last success is the epoch, long ago.
    assert!(!n.is_good_at(T0 + 20 * SEC, PORT));
    m.record_connection_result_at(&a, true, None, T0 + 30 * SEC);
    let n = node_of(&m, &a);
    assert_eq!(n.connection_attempts, 2);
    assert_eq!(n.successful_connections, 1);
    assert_eq!(n.last_success, T0 + 30 * SEC);
    assert_eq!(n.last_error, None);
    assert!(n.is_good_at(T0 + 30 * SEC, PORT));
    assert!(!n.is_good_at(T0 + 30 * SEC + 3600 * SEC, PORT));
    m.attempt_at(&a, T0 + 40 * SEC);
    assert_eq!(node_of(&m, &a).last_attempt, T0 + 40 * SEC);
    m.good_at(&a, Some("/tondid:1.0/"), Some("sub"), T0 + 50 * SEC);
    let n = node_of(&m, &a);
    assert_eq!(n.user_agent.as_deref(), Some("/tondid:1.0/"));
    assert_eq!(n.subnetwork_id.as_deref(), Some("sub"));
    assert_eq!(n.last_success, T0 + 50 * SEC);
    // Unknown addresses are left alone.
    let before = m.address_count();
    m.attempt_at(&v4(9, 9, 9, 9, PORT), T0 + 60 * SEC);
    assert_eq!(m.address_count(), before);
}

#[test]
fn staleness_rules() {
    let n = Node::new_at(v4(8, 8, 8, 8, PORT), 100 * SEC);
    assert!(n.is_stale_at(100 * SEC));
    let mut tried = n.clone();
    tried.last_attempt = 101 * SEC;
    assert!(!tried.is_stale_at(105 * SEC));
    assert!(tried.is_stale_at(107 * SEC));
    let mut reached = tried.clone();
    reached.last_success = 101 * SEC;
    assert!(!reached.is_stale_at(101 * SEC + 7200 * SEC));
    assert!(reached.is_stale_at(101 * SEC + 7201 * SEC));
    assert!(!n.is_expired_at(100 * SEC + 8 * 3600 * SEC));
    assert!(n.is_expired_at(100 * SEC + 8 * 3600 * SEC + 1));
}

#[test]
fn polling_selection_takes_oldest_stale_first() {
    let mut m = book();
    let addrs: Vec<NetAddress> = (1..=5).map(|i| v4(8, 8, 8, i, PORT)).collect();
    m.add_addresses_at(addrs.clone(), PORT, false, 1000 * SEC);
    // Tried at different times, none reached: stale after five seconds.
    for (i, a) in addrs.iter().enumerate() {
        m.attempt_at(a, (1000 + i as u64) * SEC);
    }
    let chosen = m.addresses_at(1, 2000 * SEC);
    assert_eq!(chosen, vec![addrs[0], addrs[1], addrs[2]]);
    let chosen = m.addresses_at(2, 2000 * SEC);
    assert_eq!(chosen.len(), 5);
    assert_eq!(chosen, addrs);
}

#[test]
fn polling_selection_falls_back_to_good_peers() {
    let mut m = book();
    let a = v4(8, 8, 8, 1, PORT);
    let b = v4(8, 8, 8, 2, PORT);
    m.add_addresses_at(vec![a, b], PORT, false, 1000 * SEC);
    m.record_connection_result_at(&a, true, None, 1001 * SEC);
    m.record_connection_result_at(&b, true, None, 1002 * SEC);
    // Both reached a moment ago: good, not stale.
    let chosen = m.addresses_at(1, 1003 * SEC);
    assert_eq!(chosen, vec![a, b]);
}

#[test]
fn dns_candidates_by_family_and_subnetwork() {
    let mut m = book();
    let a = v4(8, 8, 8, 8, PORT);
    let b = v6(0x2a01, 7, PORT);
    m.add_addresses_at(vec![a, b], PORT, false, 100 * SEC);
    assert_eq!(m.good_addresses_at(1, true, None, 100 * SEC), vec![a]);
    assert_eq!(m.good_addresses_at(28, true, None, 100 * SEC), vec![b]);
    assert!(m.good_addresses_at(2, true, None, 100 * SEC).is_empty());
    assert!(m.good_addresses_at(1, false, Some("x"), 100 * SEC).is_empty());
    m.good_at(&a, None, Some("x"), 100 * SEC);
    assert_eq!(m.good_addresses_at(1, false, Some("x"), 100 * SEC), vec![a]);
    assert_eq!(m.good_addresses_at(1, false, None, 100 * SEC), vec![a]);
}

#[test]
fn pruning_removes_expired_peers() {
    let mut m = book();
    m.add_addresses_at(vec![v4(8, 8, 8, 1, PORT)], PORT, false, T0);
    m.add_addresses_at(vec![v4(8, 8, 8, 2, PORT), v6(0x2a01, 2, PORT)], PORT, false, T0 + 10_000 * SEC);
    m.good_at(&v4(8, 8, 8, 2, PORT), None, None, T0 + 28_000 * SEC);
    let report = m.prune_peers_at(T0 + 8 * 3600 * SEC + 1);
    assert_eq!(report.pruned, 1);
    assert_eq!(report.good, 1);
    assert_eq!(report.ipv4, 1);
    assert_eq!(report.ipv6, 0);
    assert_eq!(report.stale, 1);
    assert_eq!(report.bad, 0);
    assert_eq!(m.address_count(), 2);
}

#[test]
fn loading_nodes() {
    let mut m = book();
    let n = Node::new_at(v4(8, 8, 8, 8, PORT), 5);
    m.load_nodes(vec![n.clone(), n]);
    assert_eq!(m.address_count(), 1);
    assert_eq!(m.peers_file(), "data/peers.json");
    assert_eq!(m.default_port(), PORT);
}

#[test]
fn known_peer_lists() {
    let peers = parse_known_peers("54.39.156.234:16111,bad,1.2.3.4:1:2,01.2.3.4:5,1.2.3.4:+7,[::1]:5, 8.8.8.8:1,256.1.1.1:1,8.8.4.4:65536,9.9.9.9:65535");
    assert_eq!(
        peers,
        vec![v4(54, 39, 156, 234, 16111), v4(1, 2, 3, 4, 7), v4(9, 9, 9, 9, 65535)]
    );
    assert!(parse_known_peers("").is_empty());
}

#[test]
fn known_peers_are_marked_good() {
    let mut m = book();
    let added = initialize_known_peers_at(&mut m, Some("54.39.156.234:16111,10.0.0.1:16111"), PORT, 500 * SEC);
    assert_eq!(added, 1);
    assert_eq!(m.address_count(), 1);
    let n = node_of(&m, &v4(54, 39, 156, 234, PORT));
    assert_eq!(n.last_success, 500 * SEC);
    assert!(n.is_good_at(500 * SEC, PORT));
    assert_eq!(initialize_known_peers_at(&mut m, None, PORT, 600 * SEC), 0);
}

#[test]
fn poll_outcomes() {
    let mut m = book();
    let a = v4(54, 39, 156, 234, PORT);
    m.add_addresses_at(vec![a], PORT, false, 100 * SEC);
    let r = handle_poll_outcome_at(&mut m, &a, "54.39.156.234:16111", PollOutcome::Failed { error: "timeout".to_string() }, 7, None, PORT, 110 * SEC);
    match r {
        Err(TondiSeederError::ConnectionFailed(t)) => assert_eq!(t, "Could not connect to 54.39.156.234:16111: timeout"),
        other => panic!("unexpected {:?}", other),
    }
    assert_eq!(node_of(&m, &a).last_error.as_deref(), Some("timeout"));
    let r = handle_poll_outcome_at(
        &mut m,
        &a,
        "54.39.156.234:16111",
        PollOutcome::Connected { protocol_version: 6, user_agent: "1.0".to_string(), addresses: vec![] },
        7,
        None,
        PORT,
        120 * SEC,
    );
    match r {
        Err(TondiSeederError::Validation(t)) => assert_eq!(
            t,
            "Peer 54.39.156.234:16111 protocol version validation failed: Validation error: Protocol version 6 is below minimum required version 7"
        ),
        other => panic!("unexpected {:?}", other),
    }
    let n = node_of(&m, &a);
    assert_eq!(n.connection_attempts, 3);
    assert_eq!(n.successful_connections, 1);
    assert_eq!(
        n.last_error.as_deref(),
        Some("Protocol version validation failed: Validation error: Protocol version 6 is below minimum required version 7")
    );
    let r = handle_poll_outcome_at(
        &mut m,
        &a,
        "54.39.156.234:16111",
        PollOutcome::Connected { protocol_version: 7, user_agent: "0.9".to_string(), addresses: vec![] },
        7,
        Some("1.0"),
        PORT,
        125 * SEC,
    );
    match r {
        Err(TondiSeederError::Validation(t)) => assert_eq!(
            t,
            "Peer 54.39.156.234:16111 user agent validation failed: Validation error: User agent version 0.9 is below minimum required version 1.0"
        ),
        other => panic!("unexpected {:?}", other),
    }
    let r = handle_poll_outcome_at(
        &mut m,
        &a,
        "54.39.156.234:16111",
        PollOutcome::Connected { protocol_version: 7, user_agent: "/tondid:1.2/".to_string(), addresses: vec![v4(8, 8, 8, 8, PORT), v4(10, 0, 0, 1, PORT)] },
        7,
        None,
        PORT,
        130 * SEC,
    );
    assert_eq!(r.unwrap(), 1);
    let n = node_of(&m, &a);
    assert_eq!(n.user_agent.as_deref(), Some("/tondid:1.2/"));
    assert_eq!(n.last_success, 130 * SEC);
    assert_eq!(m.address_count(), 2);
}

#[test]
fn crawl_decisions() {
    assert_eq!(next_crawl_action(CrawlPhase::Selecting, 3, 10), CrawlAction::PollPeers);
    assert_eq!(next_crawl_action(CrawlPhase::Selecting, 0, 999), CrawlAction::SeedFromDns);
    assert_eq!(next_crawl_action(CrawlPhase::Selecting, 0, 1000), CrawlAction::Sleep(30));
    assert_eq!(next_crawl_action(CrawlPhase::Reselecting, 0, 5), CrawlAction::Sleep(10));
    assert_eq!(next_crawl_action(CrawlPhase::Reselecting, 2, 5), CrawlAction::NextRound);
    assert_eq!(adapter_index(7, 3), 1);
}

#[test]
fn crawler_stats_counters() {
    let mut s = CrawlerStats::new();
    s.record_poll_success(5);
    s.record_poll_failure();
    assert_eq!(s.total_peers_polled, 2);
    assert_eq!(s.successful_polls, 1);
    assert_eq!(s.failed_polls, 1);
    assert_eq!(s.addresses_discovered, 5);
    assert!(s.last_poll_time.is_some());
}

#[test]
fn grpc_address_views() {
    let mut m = book();
    let a = v4(8, 8, 8, 8, PORT);
    let b = v6(0x2a01, 7, PORT);
    let c = v4(8, 8, 4, 4, PORT);
    m.add_addresses_at(vec![a, b, c], PORT, false, 100 * SEC);
    let all = get_addresses_at(&m, 10, 100 * SEC);
    assert_eq!(all.len(), 3);
    assert_eq!(all[2], b);
    assert_eq!(get_addresses_at(&m, 1, 100 * SEC).len(), 1);
    let v6_only = service_addresses_at(&m, 0, false, true, "", 100 * SEC);
    assert_eq!(v6_only, vec![b]);
    let limited = service_addresses_at(&m, 2, true, true, "zzz", 100 * SEC);
    assert_eq!(limited.len(), 2);
    assert!(limited.iter().all(|x| x.ip.is_ipv4()));
    m.good_at(&a, None, None, 100 * SEC);
    let stats = address_stats_at(&m, 100 * SEC + 3599 * SEC);
    assert_eq!(stats.total_addresses, 3);
    assert_eq!(stats.ipv4_addresses, 2);
    assert_eq!(stats.ipv6_addresses, 1);
    assert_eq!(stats.good_addresses, 1);
    assert_eq!(stats.stale_addresses, 2);
}
