//! Verified core of an overlay node: the session layer, the chunked-transfer
//! layer and the transport layer, without their sockets, clocks and tasks.

pub mod bytes;
pub mod clock;
pub mod crypto;
pub mod session;
pub mod table;
pub mod text;
pub mod time;
pub mod transfer;
pub mod transport;
