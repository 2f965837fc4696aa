use std::str::FromStr;

use tondi_seeder::dns::{extract_subnetwork_id, is_our_domain, plan_response, DnsServer};
use tondi_seeder::dns_wire::{DnsQuestion, DnsRecord, DnsRecordData, DnsRequest};
use tondi_seeder::errors::TondiSeederError;
use tondi_seeder::manager::AddressManager;
use tondi_seeder::netaddr::{IpAddress, NetAddress};
use trust_dns_proto::op::{Message, MessageType, OpCode, Query, ResponseCode};
use trust_dns_proto::rr::{Name, RData, RecordType};

const PORT: u16 = 16111;

fn v4(a: u8, b: u8, c: u8, d: u8) -> NetAddress {
    NetAddress::new(IpAddress::V4(a, b, c, d), PORT)
}

fn server() -> DnsServer {
    DnsServer::new("seed.example.com".to_string(), "ns.example.com".to_string(), "0.0.0.0:5354".to_string())
}

fn query_bytes(id: u16, name: &str, rtype: RecordType) -> Vec<u8> {
    let mut m = Message::new();
    m.set_id(id).set_message_type(MessageType::Query).set_op_code(OpCode::Query);
    m.add_query(Query::query(Name::from_str(name).unwrap(), rtype));
    m.to_vec().unwrap()
}

fn book_with_good_peers() -> AddressManager {
    let mut m = AddressManager::new("data/peers.json".to_string(), PORT);
    let peers = vec![v4(8, 8, 8, 8), v4(1, 1, 1, 1), v4(9, 9, 9, 9)];
    m.add_addresses(peers.clone(), PORT, false);
    m.good(&peers[0], Some("/tondid:0.1.0/"), Some("1"));
    m.good(&peers[1], Some("/tondid:0.1.0/"), Some("2"));
    m
}

#[test]
fn server_names_get_a_final_dot() {
    let s = server();
    assert_eq!(s.hostname(), "seed.example.com.");
    assert_eq!(s.nameserver(), "ns.example.com.");
    assert_eq!(s.listen(), "0.0.0.0:5354");
    let t = DnsServer::new("a.b.".to_string(), "c.".to_string(), "x".to_string());
    assert_eq!(t.hostname(), "a.b.");
    assert_eq!(t.nameserver(), "c.");
}

#[test]
fn our_domain_is_a_suffix_match() {
    assert!(is_our_domain("seed.example.com.", "seed.example.com."));
    assert!(is_our_domain("n1.seed.example.com.", "seed.example.com."));
    assert!(!is_our_domain("example.com.", "seed.example.com."));
    assert!(!is_our_domain("other.org.", "seed.example.com."));
}

#[test]
fn subnetwork_from_the_first_label() {
    assert_eq!(extract_subnetwork_id("seed.example.com.", "seed.example.com."), (None, true));
    assert_eq!(extract_subnetwork_id("n12.seed.example.com.", "seed.example.com."), (Some("12".to_string()), false));
    // A first label of "n" alone, or one not starting with "n", asks for all.
    assert_eq!(extract_subnetwork_id("n.seed.example.com.", "seed.example.com."), (None, true));
    assert_eq!(extract_subnetwork_id("x5.seed.example.com.", "seed.example.com."), (None, true));
}

#[test]
fn plan_for_a_query() {
    let candidates: Vec<NetAddress> = (1..=10u8).map(|i| v4(8, 8, 8, i)).collect();
    let plan = plan_response(7, 1, &candidates);
    assert_eq!(plan.id, 7);
    assert!(!plan.server_failure);
    assert_eq!(plan.answers.len(), 8);
    assert_eq!(plan.answers[0], DnsRecord { ttl: 30, data: DnsRecordData::A(8, 8, 8, 1) });
    assert_eq!(plan.answers[7], DnsRecord { ttl: 30, data: DnsRecordData::A(8, 8, 8, 8) });
    assert_eq!(plan.authorities, vec![DnsRecord { ttl: 86400, data: DnsRecordData::Ns }]);
}

#[test]
fn plan_for_an_empty_aaaa_query() {
    let plan = plan_response(3, 28, &Vec::new());
    assert!(!plan.server_failure);
    assert_eq!(plan.answers, vec![DnsRecord { ttl: 30, data: DnsRecordData::Aaaa(0x100, 0, 0, 0, 0, 0, 0, 0) }]);
    assert_eq!(plan.authorities.len(), 1);
}

#[test]
fn plan_for_ns_and_other_queries() {
    let plan = plan_response(3, 2, &Vec::new());
    assert!(!plan.server_failure);
    assert_eq!(plan.answers, vec![DnsRecord { ttl: 86400, data: DnsRecordData::Ns }]);
    assert!(plan.authorities.is_empty());
    let plan = plan_response(3, 16, &vec![v4(8, 8, 8, 8)]);
    assert!(plan.server_failure);
    assert!(plan.answers.is_empty());
    assert!(plan.authorities.is_empty());
}

#[test]
fn answers_an_a_query_from_good_and_new_peers() {
    let s = server();
    let m = book_with_good_peers();
    let reply = s.handle_request(&m, &query_bytes(42, "seed.example.com.", RecordType::A)).unwrap();
    let msg = Message::from_vec(&reply).unwrap();
    assert_eq!(msg.id(), 42);
    assert_eq!(msg.message_type(), MessageType::Response);
    assert_eq!(msg.response_code(), ResponseCode::NoError);
    assert!(msg.authoritative());
    let mut ips: Vec<String> = msg
        .answers()
        .iter()
        .map(|r| match r.data() {
            Some(RData::A(a)) => a.to_string(),
            other => panic!("unexpected record {:?}", other),
        })
        .collect();
    ips.sort();
    // 9.9.9.9 was never tried: a new peer is handed out too.
    assert_eq!(ips, vec!["1.1.1.1".to_string(), "8.8.8.8".to_string(), "9.9.9.9".to_string()]);
    assert_eq!(msg.name_servers().len(), 1);
    assert_eq!(msg.queries().len(), 1);
}

#[test]
fn answers_a_subnetwork_query() {
    let s = server();
    let m = book_with_good_peers();
    let reply = s.handle_request(&m, &query_bytes(5, "n2.seed.example.com.", RecordType::A)).unwrap();
    let msg = Message::from_vec(&reply).unwrap();
    assert_eq!(msg.answers().len(), 1);
    match msg.answers()[0].data() {
        Some(RData::A(a)) => assert_eq!(a.to_string(), "1.1.1.1"),
        other => panic!("unexpected record {:?}", other),
    }
}

#[test]
fn answers_an_ns_query() {
    let s = server();
    let m = book_with_good_peers();
    let reply = s.handle_request(&m, &query_bytes(9, "seed.example.com.", RecordType::NS)).unwrap();
    let msg = Message::from_vec(&reply).unwrap();
    assert_eq!(msg.answers().len(), 1);
    match msg.answers()[0].data() {
        Some(RData::NS(n)) => assert_eq!(n.to_string(), "ns.example.com."),
        other => panic!("unexpected record {:?}", other),
    }
}

#[test]
fn other_types_get_a_server_failure() {
    let s = server();
    let m = book_with_good_peers();
    let reply = s.handle_request(&m, &query_bytes(11, "seed.example.com.", RecordType::TXT)).unwrap();
    let msg = Message::from_vec(&reply).unwrap();
    assert_eq!(msg.response_code(), ResponseCode::ServFail);
    assert!(msg.answers().is_empty());
}

#[test]
fn refuses_foreign_names() {
    let s = server();
    let m = book_with_good_peers();
    match s.handle_request(&m, &query_bytes(1, "other.org.", RecordType::A)) {
        Err(TondiSeederError::Dns(t)) => assert_eq!(t, "Invalid name: other.org."),
        other => panic!("unexpected {:?}", other.map(|_| ())),
    }
}

#[test]
fn refuses_garbage_and_responses() {
    let s = server();
    let m = book_with_good_peers();
    match s.handle_request(&m, &[1, 2, 3]) {
        Err(TondiSeederError::Dns(t)) => assert!(t.starts_with("Invalid DNS message: ")),
        other => panic!("unexpected {:?}", other.map(|_| ())),
    }
    let mut resp = Message::new();
    resp.set_id(1).set_message_type(MessageType::Response);
    resp.add_query(Query::query(Name::from_str("seed.example.com.").unwrap(), RecordType::A));
    match s.handle_request(&m, &resp.to_vec().unwrap()) {
        Err(TondiSeederError::Dns(t)) => assert_eq!(t, "Not a query message"),
        other => panic!("unexpected {:?}", other.map(|_| ())),
    }
    let mut empty = Message::new();
    empty.set_id(1).set_message_type(MessageType::Query);
    match s.handle_request(&m, &empty.to_vec().unwrap()) {
        Err(TondiSeederError::Dns(t)) => assert_eq!(t, "No query in DNS request"),
        other => panic!("unexpected {:?}", other.map(|_| ())),
    }
    let mut status = Message::new();
    status.set_id(1).set_message_type(MessageType::Query).set_op_code(OpCode::Status);
    status.add_query(Query::query(Name::from_str("seed.example.com.").unwrap(), RecordType::A));
    match s.handle_request(&m, &status.to_vec().unwrap()) {
        Err(TondiSeederError::Dns(t)) => assert_eq!(t, "Not a standard query"),
        other => panic!("unexpected {:?}", other.map(|_| ())),
    }
}

fn request(id: u16, name: &str, query_type: u16) -> DnsRequest {
    DnsRequest {
        id,
        is_query: true,
        is_standard_query: true,
        question: Some(DnsQuestion { name: name.to_string(), query_type }),
    }
}

#[test]
fn plans_requests_from_the_book() {
    const SEC: u64 = 1_000_000_000;
    let now = 1_700_000_000 * SEC;
    let s = server();
    let mut m = AddressManager::new("data/peers.json".to_string(), PORT);
    m.add_addresses_at(vec![v4(8, 8, 8, 8), v4(1, 1, 1, 1)], PORT, false, now);
    m.good_at(&v4(1, 1, 1, 1), None, Some("7"), now);
    m.attempt_at(&v4(8, 8, 8, 8), now + SEC);
    // 8.8.8.8 was tried a moment ago and never reached: neither good nor stale.
    let plan = s.plan_request_at(&m, &request(4, "seed.example.com.", 1), now + 2 * SEC).unwrap();
    assert_eq!(plan.id, 4);
    assert_eq!(plan.answers, vec![DnsRecord { ttl: 30, data: DnsRecordData::A(1, 1, 1, 1) }]);
    assert_eq!(plan.authorities, vec![DnsRecord { ttl: 86400, data: DnsRecordData::Ns }]);
    // Ten seconds on, 8.8.8.8 is due again (stale) and answered too.
    let plan = s.plan_request_at(&m, &request(4, "seed.example.com.", 1), now + 10 * SEC).unwrap();
    assert_eq!(plan.answers.len(), 2);
    // Subnetwork 7 holds only 1.1.1.1.
    let plan = s.plan_request_at(&m, &request(5, "n7.seed.example.com.", 1), now + 10 * SEC).unwrap();
    assert_eq!(plan.answers, vec![DnsRecord { ttl: 30, data: DnsRecordData::A(1, 1, 1, 1) }]);
    let mut not_query = request(6, "seed.example.com.", 1);
    not_query.is_query = false;
    match s.plan_request_at(&m, &not_query, now) {
        Err(TondiSeederError::Dns(t)) => assert_eq!(t, "Not a query message"),
        other => panic!("unexpected {:?}", other.map(|_| ())),
    }
    match s.plan_request_at(&m, &request(7, "elsewhere.org.", 1), now) {
        Err(TondiSeederError::Dns(t)) => assert_eq!(t, "Invalid name: elsewhere.org."),
        other => panic!("unexpected {:?}", other.map(|_| ())),
    }
}

#[test]
fn response_header_and_sections() {
    let s = server();
    let m = book_with_good_peers();
    let reply = s.handle_request(&m, &query_bytes(77, "n1.seed.example.com.", RecordType::A)).unwrap();
    let msg = Message::from_vec(&reply).unwrap();
    assert_eq!(msg.id(), 77);
    assert_eq!(msg.message_type(), MessageType::Response);
    assert_eq!(msg.op_code(), OpCode::Query);
    assert_eq!(msg.response_code(), ResponseCode::NoError);
    assert!(msg.authoritative());
    assert!(!msg.recursion_desired());
    assert!(!msg.recursion_available());
    assert_eq!(msg.queries().len(), 1);
    assert_eq!(msg.queries()[0].name().to_string(), "n1.seed.example.com.");
    assert_eq!(msg.queries()[0].query_type(), RecordType::A);
    assert_eq!(msg.answers().len(), 1);
    assert_eq!(msg.answers()[0].name().to_string(), "n1.seed.example.com.");
    assert_eq!(msg.answers()[0].ttl(), 30);
    match msg.answers()[0].data() {
        Some(RData::A(a)) => assert_eq!(a.to_string(), "8.8.8.8"),
        other => panic!("unexpected record {:?}", other),
    }
    assert_eq!(msg.name_servers().len(), 1);
    assert_eq!(msg.name_servers()[0].ttl(), 86400);
    match msg.name_servers()[0].data() {
        Some(RData::NS(n)) => assert_eq!(n.to_string(), "ns.example.com."),
        other => panic!("unexpected record {:?}", other),
    }
}

#[test]
fn server_failure_header() {
    let s = server();
    let m = book_with_good_peers();
    let reply = s.handle_request(&m, &query_bytes(12, "seed.example.com.", RecordType::MX)).unwrap();
    let msg = Message::from_vec(&reply).unwrap();
    assert_eq!(msg.id(), 12);
    assert_eq!(msg.response_code(), ResponseCode::ServFail);
    assert!(msg.authoritative());
    assert_eq!(msg.queries().len(), 1);
    assert!(msg.answers().is_empty());
    assert!(msg.name_servers().is_empty());
}
