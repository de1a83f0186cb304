//! Verified core of a caching proxy for the Source engine query protocol.
//!
//! The library holds the wire format of query packets, the framing used on
//! the UDP socket, and the decisions of the cacher: which requests are
//! answered from the cache, which are forwarded to the game server, which
//! clients are queued and which are banned.

pub mod source_query;
pub mod util;
pub mod addr;
pub mod frame;
pub mod store;
pub mod cacher;
pub mod cached_query;
pub mod pair;
pub mod laws;
