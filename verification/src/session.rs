//! The session layer: what happens on an established connection between two
//! nodes.

pub mod cipher;
pub mod frame;
pub mod handoff;
pub mod liveness;
pub mod messages;
pub mod migration;
pub mod mlkem;
pub mod outbound;
pub mod pacing;
pub mod peers;
pub mod pending;
pub mod pow;
pub mod rekey;
pub mod rekey_arms;
pub mod rendezvous;
pub mod resumption;
pub mod runner;
pub mod rx_body_budget;
pub mod session_alias_guard;
pub mod signals;
pub mod ticket;
pub mod timers;
pub mod tx_registry;
pub mod warm_probe;
pub mod wire;
pub mod write_error_tracker;
