//! A verified node for a gossip-broadcast cluster: wire protocol types, the
//! neighbor topology, the deduplication store, the delivery ledger with its
//! retry pass, and the handlers that tie them together.

pub mod codec;
pub mod dedup;
pub mod laws;
pub mod ledger;
pub mod node;
pub mod proto;
