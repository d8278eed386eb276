//! Block reconciliation, gap-filling synchronisation and peer bookkeeping
//! for a blockchain node's forwarding core.
pub mod buffer;
pub mod chain;
pub mod peers;
pub mod sync;
pub mod wire;
