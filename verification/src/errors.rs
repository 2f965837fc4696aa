//! The errors of the seeder.

use vstd::prelude::*;
use crate::text::{decimal_text, push_decimal};

verus! {

#[verifier::external_type_specification]
#[verifier::external_body]
pub struct ExIoError(std::io::Error);

/// Every error the seeder reports.
#[derive(Debug)]
pub enum TondiSeederError {
    Config(String),
    Network(String),
    Dns(String),
    Grpc(String),
    Database(String),
    Io(std::io::Error),
    Serialization(String),
    Validation(String),
    Service(String),
    AddressManager(String),
    Crawler(String),
    InvalidAddress(String),
    InvalidPort(u16),
    InvalidIp(String),
    InvalidConfigValue { field: String, value: String, expected: String },
    FileNotFound(String),
    PermissionDenied(String),
    Timeout(String),
    ConnectionFailed(String),
    Protocol(String),
    ResourceExhausted(String),
    NetworkTimeout(String),
    PeerUnavailable(String),
    ProtocolVersionMismatch(String),
    ServiceUnavailable(String),
}

/// The text of an error, as its `Display` writes it; of an I/O error only
/// the prefix, the rest of its text coming from the operating system.
pub open spec fn error_text(e: TondiSeederError) -> Seq<char> {
    match e {
        TondiSeederError::Config(s) => "Configuration error: "@ + s@,
        TondiSeederError::Network(s) => "Network error: "@ + s@,
        TondiSeederError::Dns(s) => "DNS error: "@ + s@,
        TondiSeederError::Grpc(s) => "gRPC error: "@ + s@,
        TondiSeederError::Database(s) => "Database error: "@ + s@,
        TondiSeederError::Io(_) => "IO error: "@,
        TondiSeederError::Serialization(s) => "Serialization error: "@ + s@,
        TondiSeederError::Validation(s) => "Validation error: "@ + s@,
        TondiSeederError::Service(s) => "Service error: "@ + s@,
        TondiSeederError::AddressManager(s) => "Address manager error: "@ + s@,
        TondiSeederError::Crawler(s) => "Crawler error: "@ + s@,
        TondiSeederError::InvalidAddress(s) => "Invalid address format: "@ + s@,
        TondiSeederError::InvalidPort(p) => "Invalid port number: "@ + decimal_text(p as nat),
        TondiSeederError::InvalidIp(s) => "Invalid IP address: "@ + s@,
        TondiSeederError::InvalidConfigValue { field, value, expected } => "Invalid configuration value: "@ + field@ + " = "@ + value@ + ", expected: "@ + expected@,
        TondiSeederError::FileNotFound(s) => "File not found: "@ + s@,
        TondiSeederError::PermissionDenied(s) => "Permission denied: "@ + s@,
        TondiSeederError::Timeout(s) => "Timeout error: "@ + s@,
        TondiSeederError::ConnectionFailed(s) => "Connection failed: "@ + s@,
        TondiSeederError::Protocol(s) => "Protocol error: "@ + s@,
        TondiSeederError::ResourceExhausted(s) => "Resource exhausted: "@ + s@,
        TondiSeederError::NetworkTimeout(s) => "Network timeout: "@ + s@,
        TondiSeederError::PeerUnavailable(s) => "Peer unavailable: "@ + s@,
        TondiSeederError::ProtocolVersionMismatch(s) => "Protocol version mismatch: "@ + s@,
        TondiSeederError::ServiceUnavailable(s) => "Service unavailable: "@ + s@,
    }
}

/// `Display` of `std::io::Error`: the text that describes an I/O error.
/// The text is the operating system's, and nothing is claimed of it.
#[verifier::external_body]
fn io_error_text(e: &std::io::Error) -> (r: String) {
    e.to_string()
}

fn prefixed(prefix: &str, s: &String) -> (r: String)
    ensures
        r@ == prefix@ + s@,
{
    let mut r = prefix.to_owned();
    r.append(s.as_str());
    r
}

impl TondiSeederError {
    /// The text of this error.
    pub fn message(&self) -> (r: String)
        ensures
            !(*self is Io) ==> r@ == error_text(*self),
            *self is Io ==> r@.len() >= error_text(*self).len() && r@.subrange(0, error_text(*self).len() as int)
                == error_text(*self),
    {
        match self {
            TondiSeederError::Config(s) => prefixed("Configuration error: ", s),
            TondiSeederError::Network(s) => prefixed("Network error: ", s),
            TondiSeederError::Dns(s) => prefixed("DNS error: ", s),
            TondiSeederError::Grpc(s) => prefixed("gRPC error: ", s),
            TondiSeederError::Database(s) => prefixed("Database error: ", s),
            TondiSeederError::Io(e) => {
                let r = prefixed("IO error: ", &io_error_text(e));
                assert(r@.subrange(0, error_text(*self).len() as int) =~= error_text(*self));
                r
            },
            TondiSeederError::Serialization(s) => prefixed("Serialization error: ", s),
            TondiSeederError::Validation(s) => prefixed("Validation error: ", s),
            TondiSeederError::Service(s) => prefixed("Service error: ", s),
            TondiSeederError::AddressManager(s) => prefixed("Address manager error: ", s),
            TondiSeederError::Crawler(s) => prefixed("Crawler error: ", s),
            TondiSeederError::InvalidAddress(s) => prefixed("Invalid address format: ", s),
            TondiSeederError::InvalidPort(p) => {
                let mut r = "Invalid port number: ".to_owned();
                push_decimal(&mut r, *p as u64);
                r
            },
            TondiSeederError::InvalidIp(s) => prefixed("Invalid IP address: ", s),
            TondiSeederError::InvalidConfigValue { field, value, expected } => {
                let mut r = "Invalid configuration value: ".to_owned();
                r.append(field.as_str());
                r.append(" = ");
                r.append(value.as_str());
                r.append(", expected: ");
                r.append(expected.as_str());
                r
            },
            TondiSeederError::FileNotFound(s) => prefixed("File not found: ", s),
            TondiSeederError::PermissionDenied(s) => prefixed("Permission denied: ", s),
            TondiSeederError::Timeout(s) => prefixed("Timeout error: ", s),
            TondiSeederError::ConnectionFailed(s) => prefixed("Connection failed: ", s),
            TondiSeederError::Protocol(s) => prefixed("Protocol error: ", s),
            TondiSeederError::ResourceExhausted(s) => prefixed("Resource exhausted: ", s),
            TondiSeederError::NetworkTimeout(s) => prefixed("Network timeout: ", s),
            TondiSeederError::PeerUnavailable(s) => prefixed("Peer unavailable: ", s),
            TondiSeederError::ProtocolVersionMismatch(s) => prefixed("Protocol version mismatch: ", s),
            TondiSeederError::ServiceUnavailable(s) => prefixed("Service unavailable: ", s),
        }
    }
}

} // verus!
