//! NeoGrok reverse-tunnel client library.
//!
//! One control connection to a relay server carries a compact binary frame
//! protocol; many downstream TCP connections are multiplexed over it by
//! small integer identifiers. Payloads are compressed when a configured
//! profit threshold is met, and decompression is size-checked against a
//! session maximum before any output buffer is allocated.

pub mod compress;
pub mod ext;
pub mod factory;
pub mod frame;
pub mod meta;
pub mod pool;
pub mod reader;
pub mod rights;
pub mod rights_flags;
pub mod session;
pub mod side;
pub mod table;
pub mod wire;
pub mod writer;
