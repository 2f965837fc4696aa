//! DNS messages on the wire, read and written with `trust-dns-proto`.

use vstd::prelude::*;
use trust_dns_proto::error::ProtoResult;
use trust_dns_proto::op::{Message, MessageType, OpCode};
use trust_dns_proto::rr::{Name, RData, Record};
use trust_dns_proto::rr::rdata::{A, AAAA, NS};

verus! {

/// The question of a DNS request: the queried name as text (fully
/// qualified, with its final dot) and the record type's number.
#[derive(Debug)]
pub struct DnsQuestion {
    pub name: String,
    pub query_type: u16,
}

/// What the seeder reads from a DNS request.
#[derive(Debug)]
pub struct DnsRequest {
    pub id: u16,
    /// The header marks a query, not a response.
    pub is_query: bool,
    /// The operation is a standard query.
    pub is_standard_query: bool,
    /// The first question, if any.
    pub question: Option<DnsQuestion>,
}

/// The data of one record of an answer; `Ns` names the seeder's own name server.
#[derive(Clone, Copy, Debug, PartialEq, Eq, Structural)]
pub enum DnsRecordData {
    A(u8, u8, u8, u8),
    Aaaa(u16, u16, u16, u16, u16, u16, u16, u16),
    Ns,
}

/// One record of an answer, owned by the queried name.
#[derive(Clone, Copy, Debug, PartialEq, Eq, Structural)]
pub struct DnsRecord {
    pub ttl: u32,
    pub data: DnsRecordData,
}

/// The header of a DNS message: its id, whether it is a response, its op
/// code and response code, and the authoritative, recursion desired and
/// recursion available flags.
#[derive(Clone, Copy, Debug, PartialEq, Eq, Structural)]
pub struct ResponseHeader {
    pub id: u16,
    pub is_response: bool,
    pub op_code: u8,
    pub response_code: u16,
    pub authoritative: bool,
    pub recursion_desired: bool,
    pub recursion_available: bool,
}

/// What `Message::from_vec` reads from the bytes of a request, none when it
/// rejects them.
pub uninterp spec fn dns_decode(bytes: Seq<u8>) -> Option<DnsRequest>;

/// The bytes of a message with header `header` and the first question of
/// the request `request`, none when the request does not decode, the op
/// code is unknown or the encoder fails.
pub uninterp spec fn dns_head(request: Seq<u8>, header: ResponseHeader) -> Option<Seq<u8>>;

/// The bytes of the message `message` with the record `rec`, owned by the
/// name of its first question, added to its answers; none when the message
/// does not decode, the name server of an NS record does not parse, or the
/// encoder fails.
pub uninterp spec fn dns_add_answer(message: Seq<u8>, nameserver: Seq<char>, rec: DnsRecord) -> Option<Seq<u8>>;

/// As `dns_add_answer`, the record added to the authority section.
pub uninterp spec fn dns_add_authority(message: Seq<u8>, nameserver: Seq<char>, rec: DnsRecord) -> Option<Seq<u8>>;

/// `Message::from_vec`, then the header's id, message type and op code and
/// the first question's name (`Name::to_string`) and type, read out. It
/// fails, with the decoder's error text, exactly when `dns_decode` gives
/// none.
#[verifier::external_body]
pub(crate) fn decode_request(bytes: &[u8]) -> (r: Result<DnsRequest, String>)
    ensures
        r is Err <==> dns_decode(bytes@) is None,
        r matches Ok(d) ==> dns_decode(bytes@) == Some(d),
{
    let message = Message::from_vec(bytes).map_err(|e| e.to_string())?;
    let h = message.header();
    let question = message.query().map(|q| DnsQuestion { name: q.name().to_string(), query_type: u16::from(q.query_type()) });
    Ok(DnsRequest { id: h.id(), is_query: h.message_type() == MessageType::Query, is_standard_query: h.op_code() == OpCode::Query, question })
}

/// `Message::from_vec` of the request, then `Message::new` with the header
/// `h` (`OpCode::from_u8`, the response code by `From<u16>`) and the
/// request's first question (`Message::query`, `add_queries`), written out
/// with `Message::to_vec`. The bytes are `dns_head` of the arguments; it
/// fails, with the error text, exactly when that is none.
#[verifier::external_body]
pub(crate) fn encode_head(request: &[u8], h: &ResponseHeader) -> (r: Result<Vec<u8>, String>)
    ensures
        r is Ok <==> dns_head(request@, *h) is Some,
        r matches Ok(b) ==> dns_head(request@, *h) == Some(b@),
{
    let build = || -> ProtoResult<Vec<u8>> {
        let req = Message::from_vec(request)?;
        let mut m = Message::new();
        m.set_id(h.id).set_message_type(if h.is_response { MessageType::Response } else { MessageType::Query });
        m.set_op_code(OpCode::from_u8(h.op_code)?).set_response_code(h.response_code.into()).set_authoritative(h.authoritative);
        m.set_recursion_desired(h.recursion_desired).set_recursion_available(h.recursion_available);
        m.add_queries(req.query().cloned()).to_vec()
    };
    build().map_err(|e| e.to_string())
}

/// `Message::from_vec` of `message`, then `Record::from_rdata` for the name
/// of its first question with the record's TTL and data (an A or AAAA
/// record of its address, or an NS record naming `nameserver` read with
/// `Name::from_str`), `Message::add_answer`, and `Message::to_vec`. The
/// bytes are `dns_add_answer` of the arguments; it fails, with the error
/// text, exactly when that is none.
#[verifier::external_body]
pub(crate) fn encode_with_answer(message: &[u8], nameserver: &str, rec: &DnsRecord) -> (r: Result<Vec<u8>, String>)
    ensures
        r is Ok <==> dns_add_answer(message@, nameserver@, *rec) is Some,
        r matches Ok(b) ==> dns_add_answer(message@, nameserver@, *rec) == Some(b@),
{
    let build = || -> ProtoResult<Vec<u8>> {
        let mut m = Message::from_vec(message)?;
        let owner = m.query().map(|q| q.name().clone()).unwrap_or_default();
        let data = match rec.data {
            DnsRecordData::A(a, b, c, d) => RData::A(A::new(a, b, c, d)),
            DnsRecordData::Aaaa(a, b, c, d, e, f, g, h) => RData::AAAA(AAAA::new(a, b, c, d, e, f, g, h)),
            DnsRecordData::Ns => RData::NS(NS(nameserver.parse()?)),
        };
        m.add_answer(Record::from_rdata(owner, rec.ttl, data)).to_vec()
    };
    build().map_err(|e| e.to_string())
}

/// As `encode_with_answer`, with `Message::add_name_server` in place of
/// `Message::add_answer`: the bytes are `dns_add_authority` of the
/// arguments, and it fails exactly when that is none.
#[verifier::external_body]
pub(crate) fn encode_with_authority(message: &[u8], nameserver: &str, rec: &DnsRecord) -> (r: Result<Vec<u8>, String>)
    ensures
        r is Ok <==> dns_add_authority(message@, nameserver@, *rec) is Some,
        r matches Ok(b) ==> dns_add_authority(message@, nameserver@, *rec) == Some(b@),
{
    let build = || -> ProtoResult<Vec<u8>> {
        let mut m = Message::from_vec(message)?;
        let owner = m.query().map(|q| q.name().clone()).unwrap_or_default();
        let data = match rec.data {
            DnsRecordData::A(a, b, c, d) => RData::A(A::new(a, b, c, d)),
            DnsRecordData::Aaaa(a, b, c, d, e, f, g, h) => RData::AAAA(AAAA::new(a, b, c, d, e, f, g, h)),
            DnsRecordData::Ns => RData::NS(NS(nameserver.parse()?)),
        };
        m.add_name_server(Record::from_rdata(owner, rec.ttl, data)).to_vec()
    };
    build().map_err(|e| e.to_string())
}

} // verus!
