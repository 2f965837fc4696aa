//! Verified core of the Tondi DNS seeder: peer bookkeeping, address
//! selection, DNS answer planning, version checks and configuration rules.

pub mod constants;
pub mod text;
pub mod errors;
pub mod checkversion;
pub mod netaddr;
pub mod clock;
pub mod nodetable;
pub mod manager;
pub mod selection;
pub mod dns_wire;
pub mod dns;
pub mod crawler;
pub mod grpc;
pub mod dns_seed_config;
pub mod version;
pub mod logging;
pub mod logfiles;
pub mod tondi_protocol;
pub mod laws;
