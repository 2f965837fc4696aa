//! Application constants and configuration limits.

use vstd::prelude::*;

verus! {

/// Default DNS listen port.
pub const DEFAULT_DNS_PORT: u16 = 5354;
/// Default gRPC listen port.
pub const DEFAULT_GRPC_PORT: u16 = 3737;
/// Default profiling port.
pub const DEFAULT_PROFILE_PORT: u16 = 8080;

/// Lowest accepted port (privileged ports are avoided).
pub const MIN_PORT: u16 = 1024;
/// Highest accepted port.
pub const MAX_PORT: u16 = 65535;

/// Fewest crawler threads.
pub const MIN_THREADS: u8 = 1;
/// Most crawler threads.
pub const MAX_THREADS: u8 = 32;
/// Default crawler threads.
pub const DEFAULT_THREADS: u8 = 8;

/// Largest accepted network suffix.
pub const MAX_NETWORK_SUFFIX: u16 = 99;

/// Lowest protocol version.
pub const MIN_PROTOCOL_VERSION: u16 = 0;
/// Highest protocol version.
pub const MAX_PROTOCOL_VERSION: u16 = 65535;

/// Most concurrent polls of the crawler.
pub const MAX_CONCURRENT_POLLS: usize = 100;
/// Most addresses handled in one batch.
pub const MAX_ADDRESSES_PER_BATCH: usize = 1000;

/// Default address book capacity.
pub const DEFAULT_MAX_ADDRESSES: usize = 2000;
/// Largest address book capacity.
pub const MAX_ADDRESSES: usize = 10000;

/// Most records in one DNS answer.
pub const MAX_DNS_RECORDS: usize = 100;
/// DNS time to live in seconds.
pub const DNS_TTL: u32 = 300;
/// DNS cache size.
pub const DNS_CACHE_SIZE: usize = 1000;

/// Most gRPC connections.
pub const MAX_GRPC_CONNECTIONS: usize = 100;

/// Largest log file, in bytes.
pub const MAX_LOG_FILE_SIZE: u64 = 104857600;
/// Most log files kept.
pub const MAX_LOG_FILES: usize = 10;

/// Retries of a health check.
pub const HEALTH_CHECK_RETRIES: u32 = 3;
/// Most metric samples kept.
pub const MAX_METRICS_HISTORY: usize = 1000;

/// A port is valid when it is not privileged.
pub fn is_valid_port(port: u16) -> (r: bool)
    ensures
        r == (MIN_PORT <= port && port <= MAX_PORT),
{
    MIN_PORT <= port && port <= MAX_PORT
}

/// A thread count is valid when it lies in `MIN_THREADS..=MAX_THREADS`.
pub fn is_valid_thread_count(threads: u8) -> (r: bool)
    ensures
        r == (MIN_THREADS <= threads && threads <= MAX_THREADS),
{
    MIN_THREADS <= threads && threads <= MAX_THREADS
}

/// A network suffix is valid when it is at most `MAX_NETWORK_SUFFIX`.
pub fn is_valid_network_suffix(suffix: u16) -> (r: bool)
    ensures
        r == (suffix <= MAX_NETWORK_SUFFIX),
{
    suffix <= MAX_NETWORK_SUFFIX
}

/// Every `u16` is a valid protocol version.
pub fn is_valid_protocol_version(version: u16) -> (r: bool)
    ensures
        r,
{
    let _ = version;
    true
}

/// An address book capacity is valid when it is positive and at most `MAX_ADDRESSES`.
pub fn is_valid_max_addresses(count: usize) -> (r: bool)
    ensures
        r == (0 < count && count <= MAX_ADDRESSES),
{
    count > 0 && count <= MAX_ADDRESSES
}

} // verus!
