//! Verified core of a peer-to-peer networking library: payload compression,
//! multiaddress handling, the peer address book, RPC framing, DHT query
//! bookkeeping, NAT classification and record-store expiry rules.

pub mod compression;
pub mod bytes;
pub mod addr;
pub mod assoc;
pub mod peers;
pub mod rpc;
pub mod stream;
pub mod queries;
pub mod nat_check;
pub mod retry;
pub mod fs_blockstore;
pub mod config;
pub mod events;
pub mod store;
