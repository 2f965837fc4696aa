//! Answering DNS queries for peers: which queries are ours, which
//! subnetwork they ask for, and which records answer them.

use vstd::prelude::*;
use crate::dns_wire::{
    decode_request, dns_add_answer, dns_add_authority, dns_decode, dns_head, encode_head, encode_with_answer,
    encode_with_authority, DnsRecord, DnsRecordData, DnsRequest, ResponseHeader,
};
use crate::errors::TondiSeederError;
use crate::clock::now_nanos;
use crate::manager::{enumerates, AddressManager, Node};
use crate::netaddr::{IpAddress, NetAddress, NodeKey};
use crate::selection::{dns_candidates, QTYPE_A, QTYPE_AAAA};
use crate::text::{chars_of, lemma_split_nonempty, opt_str_view, split, split_chars};

verus! {

/// DNS query type of an NS record.
pub const QTYPE_NS: u16 = 2;
/// Most address records in one answer.
pub const MAX_ANSWER_ADDRESSES: usize = 8;
/// Time to live of address records, in seconds.
pub const ADDRESS_TTL: u32 = 30;
/// Time to live of name server records, in seconds.
pub const NS_TTL: u32 = 86400;
/// Response code of an answer without error.
pub const RCODE_NO_ERROR: u16 = 0;
/// Response code of a server failure.
pub const RCODE_SERVER_FAILURE: u16 = 2;
/// Op code of a standard query.
pub const OPCODE_QUERY: u8 = 0;

/// `s` with a final dot, unless it already ends with one.
pub open spec fn with_final_dot(s: Seq<char>) -> Seq<char> {
    if s.len() > 0 && s.last() == '.' {
        s
    } else {
        s.push('.')
    }
}

/// Whether `s` ends with `suffix`.
pub open spec fn ends_with(s: Seq<char>, suffix: Seq<char>) -> bool {
    suffix.len() <= s.len() && s.subrange(s.len() - suffix.len(), s.len() as int) == suffix
}

/// The subnetwork a queried name asks for, and whether it asks for all: the
/// seeder's own name asks for all; a name whose first label is `n`
/// followed by at least one character asks for the subnetwork named by the
/// rest of that label; any other name asks for all.
pub open spec fn subnetwork_of(domain: Seq<char>, hostname: Seq<char>) -> (Option<Seq<char>>, bool) {
    let first = split(domain, '.')[0];
    if domain == hostname {
        (None, true)
    } else if first.len() > 1 && first[0] == 'n' {
        (Some(first.skip(1)), false)
    } else {
        (None, true)
    }
}

/// The record naming the seeder's name server.
pub open spec fn ns_record() -> DnsRecord {
    DnsRecord { ttl: NS_TTL, data: DnsRecordData::Ns }
}

/// The address record of `a` when it is of the wanted family.
pub open spec fn address_records(s: Seq<NetAddress>, want_v4: bool) -> Seq<DnsRecord>
    decreases s.len(),
{
    if s.len() == 0 {
        Seq::<DnsRecord>::empty()
    } else {
        let p = address_records(s.drop_last(), want_v4);
        match s.last().ip {
            IpAddress::V4(a, b, c, d) => if want_v4 {
                p.push(DnsRecord { ttl: ADDRESS_TTL, data: DnsRecordData::A(a, b, c, d) })
            } else {
                p
            },
            IpAddress::V6(a, b, c, d, e, f, g, h) => if want_v4 {
                p
            } else {
                p.push(DnsRecord { ttl: ADDRESS_TTL, data: DnsRecordData::Aaaa(a, b, c, d, e, f, g, h) })
            },
        }
    }
}

/// The first eight of `s`, or all of it when shorter.
pub open spec fn first_eight(s: Seq<NetAddress>) -> Seq<NetAddress> {
    if s.len() > 8 {
        s.take(8)
    } else {
        s
    }
}

/// The AAAA record answered when no IPv6 peer is known: `100::`.
pub open spec fn placeholder_record() -> DnsRecord {
    DnsRecord { ttl: ADDRESS_TTL, data: DnsRecordData::Aaaa(0x100, 0, 0, 0, 0, 0, 0, 0) }
}

/// The records answering a query of type `qtype`, given the candidate
/// addresses: for A, an A record for each IPv4 address among the first
/// eight candidates; for AAAA, an AAAA record for each IPv6 address among
/// the first eight, or the placeholder when there is no candidate; for NS,
/// the name server record; for any other type, none.
pub open spec fn answer_records(qtype: u16, candidates: Seq<NetAddress>) -> Seq<DnsRecord> {
    if qtype == QTYPE_A {
        address_records(first_eight(candidates), true)
    } else if qtype == QTYPE_AAAA {
        if candidates.len() == 0 {
            seq![placeholder_record()]
        } else {
            address_records(first_eight(candidates), false)
        }
    } else if qtype == QTYPE_NS {
        seq![ns_record()]
    } else {
        Seq::<DnsRecord>::empty()
    }
}

/// The authority records of an answer: the name server record for A and
/// AAAA queries, none otherwise.
pub open spec fn authority_records(qtype: u16) -> Seq<DnsRecord> {
    if qtype == QTYPE_A || qtype == QTYPE_AAAA {
        seq![ns_record()]
    } else {
        Seq::<DnsRecord>::empty()
    }
}

/// A query type the seeder answers: A, AAAA or NS; any other is answered
/// with a server failure.
pub open spec fn answered_type(qtype: u16) -> bool {
    qtype == QTYPE_A || qtype == QTYPE_AAAA || qtype == QTYPE_NS
}

/// What an answer holds, before it is written out.
#[derive(Debug)]
pub struct DnsResponsePlan {
    pub id: u16,
    pub server_failure: bool,
    pub answers: Vec<DnsRecord>,
    pub authorities: Vec<DnsRecord>,
}

/// Whether `s` ends with `suffix`.
pub fn str_ends_with(s: &str, suffix: &str) -> (r: bool)
    ensures
        r == ends_with(s@, suffix@),
{
    let n = s.unicode_len();
    let m = suffix.unicode_len();
    if m > n {
        return false;
    }
    let mut i: usize = 0;
    while i < m
        invariant
            n == s@.len(),
            m == suffix@.len(),
            m <= n,
            i <= m,
            forall|j: int| 0 <= j < i ==> s@[n - m + j] == suffix@[j],
        decreases m - i,
    {
        if s.get_char(n - m + i) != suffix.get_char(i) {
            assert(s@.subrange(n - m, n as int)[i as int] != suffix@[i as int]);
            return false;
        }
        i = i + 1;
    }
    assert(s@.subrange(n - m, n as int) =~= suffix@);
    true
}

/// Whether a queried name belongs to the seeder: it ends with the seeder's
/// host name.
pub fn is_our_domain(domain: &str, hostname: &str) -> (r: bool)
    ensures
        r == ends_with(domain@, hostname@),
{
    str_ends_with(domain, hostname)
}

/// The subnetwork a queried name asks for, and whether it asks for all.
pub fn extract_subnetwork_id(domain: &str, hostname: &str) -> (r: (Option<String>, bool))
    ensures
        r.1 == subnetwork_of(domain@, hostname@).1,
        r.0 is Some == subnetwork_of(domain@, hostname@).0 is Some,
        r.0 is Some ==> r.0->0@ == subnetwork_of(domain@, hostname@).0->0,
{
    if crate::text::str_eq(domain, hostname) {
        return (None, true);
    }
    let chars = chars_of(domain);
    let labels = split_chars(&chars, '.');
    proof {
        lemma_split_nonempty(domain@, '.');
        assert(labels@[0]@ == split(domain@, '.')[0]);
    }
    let first = &labels[0];
    if first.len() > 1 && first[0] == 'n' {
        let rest = crate::text::slice_chars(first, 1, first.len());
        let s = chars_to_string(&rest);
        assert(s@ =~= split(domain@, '.')[0].skip(1));
        return (Some(s), false);
    }
    (None, true)
}

/// The string of the characters `v`.
pub fn chars_to_string(v: &Vec<char>) -> (r: String)
    ensures
        r@ == v@,
{
    let mut r = String::new();
    let mut i: usize = 0;
    while i < v.len()
        invariant
            i <= v@.len(),
            r@ == v@.take(i as int),
        decreases v@.len() - i,
    {
        let c = v[i];
        let piece = char_str(c);
        r.append(piece.as_str());
        i = i + 1;
        assert(r@ =~= v@.take(i as int));
    }
    assert(v@.take(v@.len() as int) =~= v@);
    r
}

/// `char::to_string`: the one-character string of `c`.
#[verifier::external_body]
fn char_str(c: char) -> (r: String)
    ensures
        r@ == seq![c],
{
    c.to_string()
}

/// Appends the address records of `s` of the wanted family to `out`.
fn push_address_records(s: &Vec<NetAddress>, limit: usize, want_v4: bool, out: &mut Vec<DnsRecord>)
    requires
        limit <= s@.len(),
    ensures
        final(out)@ == old(out)@ + address_records(s@.take(limit as int), want_v4),
{
    let ghost start = out@;
    let mut i: usize = 0;
    while i < limit
        invariant
            i <= limit,
            limit <= s@.len(),
            out@ == start + address_records(s@.take(i as int), want_v4),
        decreases limit - i,
    {
        assert(s@.take(i + 1).drop_last() =~= s@.take(i as int));
        assert(s@.take(i + 1).last() == s@[i as int]);
        match s[i].ip {
            IpAddress::V4(a, b, c, d) => {
                if want_v4 {
                    out.push(DnsRecord { ttl: ADDRESS_TTL, data: DnsRecordData::A(a, b, c, d) });
                }
            },
            IpAddress::V6(a, b, c, d, e, f, g, h) => {
                if !want_v4 {
                    out.push(DnsRecord { ttl: ADDRESS_TTL, data: DnsRecordData::Aaaa(a, b, c, d, e, f, g, h) });
                }
            },
        }
        i = i + 1;
    }
}

/// The answer to a query of type `qtype` with the given id, answered from
/// `candidates`.
pub fn plan_response(id: u16, qtype: u16, candidates: &Vec<NetAddress>) -> (r: DnsResponsePlan)
    ensures
        r.id == id,
        r.server_failure == !answered_type(qtype),
        r.answers@ == answer_records(qtype, candidates@),
        r.authorities@ == authority_records(qtype),
{
    let mut answers: Vec<DnsRecord> = Vec::new();
    let mut authorities: Vec<DnsRecord> = Vec::new();
    let limit = if candidates.len() > MAX_ANSWER_ADDRESSES {
        MAX_ANSWER_ADDRESSES
    } else {
        candidates.len()
    };
    assert(candidates@.take(limit as int) == first_eight(candidates@)) by {
        if candidates@.len() <= 8 {
            assert(candidates@.take(limit as int) =~= candidates@);
        }
    }
    if qtype == QTYPE_A {
        authorities.push(DnsRecord { ttl: NS_TTL, data: DnsRecordData::Ns });
        push_address_records(candidates, limit, true, &mut answers);
        assert(answers@ =~= answer_records(qtype, candidates@));
    } else if qtype == QTYPE_AAAA {
        authorities.push(DnsRecord { ttl: NS_TTL, data: DnsRecordData::Ns });
        if candidates.len() == 0 {
            answers.push(DnsRecord { ttl: ADDRESS_TTL, data: DnsRecordData::Aaaa(0x100, 0, 0, 0, 0, 0, 0, 0) });
        } else {
            push_address_records(candidates, limit, false, &mut answers);
        }
        assert(answers@ =~= answer_records(qtype, candidates@));
    } else if qtype == QTYPE_NS {
        answers.push(DnsRecord { ttl: NS_TTL, data: DnsRecordData::Ns });
    }
    assert(answers@ =~= answer_records(qtype, candidates@));
    assert(authorities@ =~= authority_records(qtype));
    DnsResponsePlan { id, server_failure: !(qtype == QTYPE_A || qtype == QTYPE_AAAA || qtype == QTYPE_NS), answers, authorities }
}

/// How a request is refused, or that it is answered.
pub open spec fn request_verdict(req: Option<DnsRequest>, hostname: Seq<char>) -> Option<Seq<char>> {
    match req {
        None => Some("Invalid DNS message: "@),
        Some(q) => if !q.is_query {
            Some("Not a query message"@)
        } else if !q.is_standard_query {
            Some("Not a standard query"@)
        } else if q.question is None {
            Some("No query in DNS request"@)
        } else if !ends_with(q.question->0.name@, hostname) {
            Some("Invalid name: "@ + q.question->0.name@)
        } else {
            None
        },
    }
}

/// `p` is the answer to the question of `info` from the book at `now`:
/// the request's id, a server failure unless the type is A, AAAA or NS,
/// the records of the type, A and AAAA records drawn from the good and
/// stale peers of the requested family and subnetwork in some listing of
/// the book.
pub open spec fn answers_request(
    p: DnsResponsePlan,
    info: DnsRequest,
    hostname: Seq<char>,
    book: Map<NodeKey, Node>,
    now: u64,
    default_port: u16,
) -> bool {
    let q = info.question->0;
    let qtype = q.query_type;
    let sub = subnetwork_of(q.name@, hostname);
    &&& p.id == info.id
    &&& p.server_failure == !answered_type(qtype)
    &&& p.authorities@ == authority_records(qtype)
    &&& (qtype == QTYPE_A || qtype == QTYPE_AAAA) ==> exists|e: Seq<Node>|
        #![trigger enumerates(e, book)]
        enumerates(e, book) && p.answers@ == answer_records(
            qtype,
            dns_candidates(e, qtype, sub.1, sub.0, now, default_port),
        )
    &&& !(qtype == QTYPE_A || qtype == QTYPE_AAAA) ==> p.answers@ == answer_records(qtype, Seq::<NetAddress>::empty())
}

/// The DNS server's names and listen address.
pub struct DnsServer {
    hostname: String,
    nameserver: String,
    listen: String,
}

impl DnsServer {
    /// The seeder's host name, with its final dot.
    pub closed spec fn hostname_spec(&self) -> Seq<char> {
        self.hostname@
    }

    /// The seeder's name server, with its final dot.
    pub closed spec fn nameserver_spec(&self) -> Seq<char> {
        self.nameserver@
    }

    /// The listen address.
    pub closed spec fn listen_spec(&self) -> Seq<char> {
        self.listen@
    }

    /// A server for `hostname` and `nameserver`, each given a final dot
    /// unless it has one, listening on `listen`.
    pub fn new(hostname: String, nameserver: String, listen: String) -> (r: DnsServer)
        ensures
            r.hostname_spec() == with_final_dot(hostname@),
            r.nameserver_spec() == with_final_dot(nameserver@),
            r.listen_spec() == listen@,
    {
        let hostname = with_dot(hostname);
        let nameserver = with_dot(nameserver);
        DnsServer { hostname, nameserver, listen }
    }

    /// The seeder's host name.
    pub fn hostname(&self) -> (r: &str)
        ensures
            r@ == self.hostname_spec(),
    {
        self.hostname.as_str()
    }

    /// The seeder's name server.
    pub fn nameserver(&self) -> (r: &str)
        ensures
            r@ == self.nameserver_spec(),
    {
        self.nameserver.as_str()
    }

    /// The listen address.
    pub fn listen(&self) -> (r: &str)
        ensures
            r@ == self.listen_spec(),
    {
        self.listen.as_str()
    }

    /// How a decoded request is answered at `now` from the book: refused,
    /// with a DNS error, when it is not a standard query, has no question,
    /// or asks for a name that is not the seeder's; otherwise the plan of
    /// the answer to its question, A and AAAA queries answered from the
    /// book's good and stale peers of the requested subnetwork.
    pub fn plan_request_at(&self, manager: &AddressManager, info: &DnsRequest, now: u64) -> (r: Result<
        DnsResponsePlan,
        TondiSeederError,
    >)
        ensures
            request_verdict(Some(*info), self.hostname_spec()) matches Some(m) ==> (r matches Err(
                TondiSeederError::Dns(t),
            ) && t@ == m),
            request_verdict(Some(*info), self.hostname_spec()) is None ==> (r matches Ok(p) && answers_request(
                p,
                *info,
                self.hostname_spec(),
                manager.book(),
                now,
                manager.default_port_spec(),
            )),
    {
        proof {
            use_type_invariant(&*manager);
        }
        if !info.is_query {
            return Err(TondiSeederError::Dns("Not a query message".to_owned()));
        }
        if !info.is_standard_query {
            return Err(TondiSeederError::Dns("Not a standard query".to_owned()));
        }
        let question = match &info.question {
            Some(q) => q,
            None => {
                return Err(TondiSeederError::Dns("No query in DNS request".to_owned()));
            },
        };
        if !is_our_domain(question.name.as_str(), self.hostname.as_str()) {
            let mut t = "Invalid name: ".to_owned();
            t.append(question.name.as_str());
            return Err(TondiSeederError::Dns(t));
        }
        let (subnetwork_id, include_all) = extract_subnetwork_id(question.name.as_str(), self.hostname.as_str());
        let qtype = question.query_type;
        let candidates = if qtype == QTYPE_A || qtype == QTYPE_AAAA {
            let sub: Option<&str> = match &subnetwork_id {
                Some(s) => Some(s.as_str()),
                None => None,
            };
            assert(opt_str_view(sub) == subnetwork_of(question.name@, self.hostname@).0);
            manager.good_addresses_at(qtype, include_all, sub, now)
        } else {
            Vec::new()
        };
        Ok(plan_response(info.id, qtype, &candidates))
    }

    /// Answers the request in `request` now: refused, with a DNS error, when
    /// it does not decode or `plan_request_at` refuses it; otherwise the
    /// bytes of the response to it, `dns_answer` of the request, the
    /// response header of its plan, the name server and the plan's records;
    /// a protocol error when those bytes cannot be made.
    pub fn handle_request(&self, manager: &AddressManager, request: &[u8]) -> (r: Result<Vec<u8>, TondiSeederError>)
        ensures
            request_verdict(dns_decode(request@), self.hostname_spec()) matches Some(m) ==> (r matches Err(
                TondiSeederError::Dns(t),
            ) && (dns_decode(request@) is Some ==> t@ == m) && (dns_decode(request@) is None
                ==> t@.len() >= m.len() && t@.subrange(0, m.len() as int) == m)),
            request_verdict(dns_decode(request@), self.hostname_spec()) is None ==> exists|now: u64, p: DnsResponsePlan|
                #![trigger answers_request(p, dns_decode(request@)->0, self.hostname_spec(), manager.book(), now, manager.default_port_spec())]
                answers_request(
                    p,
                    dns_decode(request@)->0,
                    self.hostname_spec(),
                    manager.book(),
                    now,
                    manager.default_port_spec(),
                ) && answered_with(request@, p, self.nameserver_spec(), r),
    {
        proof {
            use_type_invariant(&*manager);
        }
        let info = match decode_request(request) {
            Ok(d) => d,
            Err(e) => {
                let mut t = "Invalid DNS message: ".to_owned();
                t.append(e.as_str());
                return Err(TondiSeederError::Dns(t));
            },
        };
        let now = now_nanos();
        let plan = self.plan_request_at(manager, &info, now)?;
        match self.write_response(request, &plan) {
            Ok(bytes) => Ok(bytes),
            Err(e) => {
                let mut t = "DNS protocol error: ".to_owned();
                t.append(e.as_str());
                Err(TondiSeederError::Protocol(t))
            },
        }
    }

    /// The bytes of the response to `request` that `plan` describes: its
    /// header (`response_header`) and the request's question, then the
    /// authority records, then the answer records, each owned by the queried
    /// name; an error when the bytes cannot be made.
    fn write_response(&self, request: &[u8], plan: &DnsResponsePlan) -> (r: Result<Vec<u8>, String>)
        ensures
            r is Ok <==> dns_answer(request@, response_header(*plan), self.nameserver@, plan.answers@, plan.authorities@) is Some,
            r matches Ok(b) ==> dns_answer(request@, response_header(*plan), self.nameserver@, plan.answers@, plan.authorities@)
                == Some(b@),
    {
        let header = ResponseHeader {
            id: plan.id,
            is_response: true,
            op_code: OPCODE_QUERY,
            response_code: if plan.server_failure {
                RCODE_SERVER_FAILURE
            } else {
                RCODE_NO_ERROR
            },
            authoritative: true,
            recursion_desired: false,
            recursion_available: false,
        };
        let ns = self.nameserver.as_str();
        let ghost head = dns_head(request@, header);
        let mut m = match encode_head(request, &header) {
            Ok(b) => b,
            Err(e) => {
                proof {
                    lemma_records_after_none(ns@, plan.authorities@, false);
                    lemma_records_after_none(ns@, plan.answers@, true);
                }
                return Err(e);
            },
        };
        let mut i: usize = 0;
        while i < plan.authorities.len()
            invariant
                i <= plan.authorities@.len(),
                with_records(head, ns@, plan.authorities@.take(i as int), false) == Some(m@),
                head == dns_head(request@, response_header(*plan)),
                ns@ == self.nameserver@,
            decreases plan.authorities@.len() - i,
        {
            assert(plan.authorities@.take(i + 1).drop_last() =~= plan.authorities@.take(i as int));
            assert(plan.authorities@.take(i + 1).last() == plan.authorities@[i as int]);
            match encode_with_authority(m.as_slice(), ns, &plan.authorities[i]) {
                Ok(b) => {
                    m = b;
                },
                Err(e) => {
                    proof {
                        lemma_records_after_none(ns@, plan.authorities@.skip(i + 1), false);
                        lemma_records_split(head, ns@, plan.authorities@, i + 1, false);
                        lemma_records_after_none(ns@, plan.answers@, true);
                    }
                    return Err(e);
                },
            }
            i = i + 1;
        }
        assert(plan.authorities@.take(plan.authorities@.len() as int) =~= plan.authorities@);
        let ghost mid = with_records(head, ns@, plan.authorities@, false);
        let mut j: usize = 0;
        while j < plan.answers.len()
            invariant
                j <= plan.answers@.len(),
                with_records(mid, ns@, plan.answers@.take(j as int), true) == Some(m@),
                mid == with_records(head, ns@, plan.authorities@, false),
                head == dns_head(request@, response_header(*plan)),
                ns@ == self.nameserver@,
            decreases plan.answers@.len() - j,
        {
            assert(plan.answers@.take(j + 1).drop_last() =~= plan.answers@.take(j as int));
            assert(plan.answers@.take(j + 1).last() == plan.answers@[j as int]);
            match encode_with_answer(m.as_slice(), ns, &plan.answers[j]) {
                Ok(b) => {
                    m = b;
                },
                Err(e) => {
                    proof {
                        lemma_records_after_none(ns@, plan.answers@.skip(j + 1), true);
                        lemma_records_split(mid, ns@, plan.answers@, j + 1, true);
                    }
                    return Err(e);
                },
            }
            j = j + 1;
        }
        assert(plan.answers@.take(plan.answers@.len() as int) =~= plan.answers@);
        Ok(m)
    }
}

/// The header of the response to a planned answer: the request's id, a
/// response to a standard query, authoritative, recursion neither desired
/// nor available, and the response code of a server failure or of no error.
pub open spec fn response_header(plan: DnsResponsePlan) -> ResponseHeader {
    ResponseHeader {
        id: plan.id,
        is_response: true,
        op_code: OPCODE_QUERY,
        response_code: if plan.server_failure {
            RCODE_SERVER_FAILURE
        } else {
            RCODE_NO_ERROR
        },
        authoritative: true,
        recursion_desired: false,
        recursion_available: false,
    }
}

/// The message `m` with the records `recs` added in order, to its answers
/// or to its authority section; none once any step fails.
pub open spec fn with_records(m: Option<Seq<u8>>, nameserver: Seq<char>, recs: Seq<DnsRecord>, to_answers: bool) -> Option<
    Seq<u8>,
>
    decreases recs.len(),
{
    if recs.len() == 0 {
        m
    } else {
        match with_records(m, nameserver, recs.drop_last(), to_answers) {
            Some(b) => if to_answers {
                dns_add_answer(b, nameserver, recs.last())
            } else {
                dns_add_authority(b, nameserver, recs.last())
            },
            None => None,
        }
    }
}

/// The bytes of the response to `request` with header `header`: the
/// request's question, the authority records, then the answer records.
pub open spec fn dns_answer(
    request: Seq<u8>,
    header: ResponseHeader,
    nameserver: Seq<char>,
    answers: Seq<DnsRecord>,
    authorities: Seq<DnsRecord>,
) -> Option<Seq<u8>> {
    with_records(with_records(dns_head(request, header), nameserver, authorities, false), nameserver, answers, true)
}

/// `r` is what answering `request` with the plan `p` gives: the bytes of
/// the response when they can be made, else a protocol error.
pub open spec fn answered_with(request: Seq<u8>, p: DnsResponsePlan, nameserver: Seq<char>, r: Result<Vec<u8>, TondiSeederError>) -> bool {
    match dns_answer(request, response_header(p), nameserver, p.answers@, p.authorities@) {
        Some(b) => r matches Ok(v) && v@ == b,
        None => r matches Err(TondiSeederError::Protocol(_)),
    }
}

/// Nothing is added to a message that could not be made.
proof fn lemma_records_after_none(nameserver: Seq<char>, recs: Seq<DnsRecord>, to_answers: bool)
    ensures
        with_records(None, nameserver, recs, to_answers) is None,
    decreases recs.len(),
{
    if recs.len() > 0 {
        lemma_records_after_none(nameserver, recs.drop_last(), to_answers);
    }
}

/// Adding `recs` is adding its first `k` records, then the rest.
proof fn lemma_records_split(m: Option<Seq<u8>>, nameserver: Seq<char>, recs: Seq<DnsRecord>, k: int, to_answers: bool)
    requires
        0 <= k <= recs.len(),
    ensures
        with_records(m, nameserver, recs, to_answers) == with_records(
            with_records(m, nameserver, recs.take(k), to_answers),
            nameserver,
            recs.skip(k),
            to_answers,
        ),
    decreases recs.len(),
{
    if recs.len() == k {
        assert(recs.take(k) =~= recs);
        assert(recs.skip(k) =~= Seq::<DnsRecord>::empty());
    } else {
        lemma_records_split(m, nameserver, recs.drop_last(), k, to_answers);
        assert(recs.drop_last().take(k) =~= recs.take(k));
        assert(recs.skip(k).drop_last() =~= recs.drop_last().skip(k));
        assert(recs.skip(k).last() == recs.last());
    }
}

/// `s` with a final dot, unless it already ends with one.
fn with_dot(s: String) -> (r: String)
    ensures
        r@ == with_final_dot(s@),
{
    let ghost v = s@;
    let n = s.as_str().unicode_len();
    if n > 0 && s.as_str().get_char(n - 1) == '.' {
        s
    } else {
        let mut s = s;
        s.append(".");
        proof {
            reveal_strlit(".");
        }
        assert(s@ =~= with_final_dot(v));
        s
    }
}

/// Address records are at most one per address, each of the wanted family.
pub proof fn lemma_address_records(s: Seq<NetAddress>, want_v4: bool)
    ensures
        address_records(s, want_v4).len() <= s.len(),
        forall|j: int| 0 <= j < address_records(s, want_v4).len() ==> (if want_v4 {
            (#[trigger] address_records(s, want_v4)[j]).data is A
        } else {
            address_records(s, want_v4)[j].data is Aaaa
        }),
        forall|j: int| 0 <= j < address_records(s, want_v4).len() ==> (#[trigger] address_records(s, want_v4)[j]).ttl == ADDRESS_TTL,
        (forall|j: int| 0 <= j < s.len() ==> ((#[trigger] s[j]).ip is V4) == want_v4) ==> address_records(s, want_v4).len() == s.len(),
    decreases s.len(),
{
    if s.len() > 0 {
        lemma_address_records(s.drop_last(), want_v4);
        if forall|j: int| 0 <= j < s.len() ==> ((#[trigger] s[j]).ip is V4) == want_v4 {
            assert forall|j: int| 0 <= j < s.drop_last().len() implies ((#[trigger] s.drop_last()[j]).ip is V4) == want_v4 by {
                assert(s.drop_last()[j] == s[j]);
            }
            assert(s[s.len() - 1] == s.last());
        }
    }
}

/// An A answer holds at most eight records, all A records; an AAAA answer
/// holds one to eight records, all AAAA records; an NS answer holds the one
/// name server record; any other query type is answered with a server
/// failure and no record. A and AAAA answers name the seeder's name server
/// as their authority. (The AAAA count holds when every candidate is an
/// IPv6 address, as the book's candidates for AAAA are.)
pub proof fn law_answer_shape(qtype: u16, candidates: Seq<NetAddress>)
    requires
        qtype == QTYPE_AAAA ==> forall|j: int| 0 <= j < candidates.len() ==> (#[trigger] candidates[j]).ip is V6,
    ensures
        ({
            let a = answer_records(qtype, candidates);
            &&& qtype == QTYPE_A ==> a.len() <= 8 && forall|j: int| 0 <= j < a.len() ==> (#[trigger] a[j]).data is A
            &&& qtype == QTYPE_AAAA ==> 1 <= a.len() <= 8 && forall|j: int| 0 <= j < a.len() ==> (#[trigger] a[j]).data is Aaaa
            &&& qtype == QTYPE_NS ==> a == seq![ns_record()]
            &&& !answered_type(qtype) ==> a.len() == 0
            &&& (qtype == QTYPE_A || qtype == QTYPE_AAAA) ==> authority_records(qtype) == seq![ns_record()]
        }),
{
    lemma_address_records(first_eight(candidates), true);
    lemma_address_records(first_eight(candidates), false);
    if qtype == QTYPE_AAAA && candidates.len() > 0 {
        let f = first_eight(candidates);
        assert(f.len() >= 1);
        assert forall|j: int| 0 <= j < f.len() implies ((#[trigger] f[j]).ip is V4) == false by {
            assert(f[j] == candidates[j]);
        }
    }
}

} // verus!
