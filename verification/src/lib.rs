//! Verified core of an event bus: metrics registry, envelope validation,
//! the outbox state machine and the delivery rules of the SQLite-backed bus.

pub mod bus;
pub mod delivery;
pub mod envelope;
pub mod observability;
pub mod outbox;
pub mod brokers;
