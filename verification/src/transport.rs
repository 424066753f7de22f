//! Carrying bytes between nodes: addresses, the ways to reach them, and what is
//! decided before, between and after the calls that touch the network.

pub mod context;
pub mod dial;
pub mod ech_dns;
pub mod ephemeral;
pub mod error;
pub mod fingerprint;
pub mod hint_registry;
pub mod obfs4_tcp;
pub mod on_demand;
pub mod quic;
pub mod registry;
pub mod rotation;
pub mod socks;
pub mod streams;
pub mod tcp;
pub mod tls_config;
pub mod traits;
pub mod uri;
