//! A small local inter-process message bus: a central hub authenticates
//! services against policy files and brokers direct peer-to-peer sessions,
//! over which services exchange method calls, signals and cached states.
//!
//! This crate holds the verified core: the message model, the wire codec,
//! the per-connection session bookkeeping, the service registry, and the
//! hub's brokering decisions. The asynchronous transport around it hands
//! these functions plain values and carries their results onto the wire.

pub mod bus;
pub mod codec;
pub mod errors;
pub mod hub;
pub mod inspect;
pub mod messages;
pub mod monitor;
pub mod peer_connection;
pub mod registry;
