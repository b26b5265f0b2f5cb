//! An in-memory, shard-partitioned key-value store.
//!
//! Keys are text, values are opaque byte sequences. The key space is
//! split into a fixed number of shards; a deterministic hash of the key
//! routes every operation to exactly one shard, so distinct shards can
//! be guarded by independent locks without any cross-shard
//! coordination. Commands are dispatched against the store one at a
//! time per shard, and a per-connection state machine decides, step by
//! step, how one client session advances.

pub mod command;
pub mod conn;
pub mod counter;
pub mod dispatch;
pub mod routing;
pub mod shard;
pub mod store;
