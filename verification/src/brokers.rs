//! The broker adapters of the bus and the errors brokers report.

use vstd::prelude::*;

verus! {

/// `std::io::Error`, carried by the I/O variant of a bus error.
#[verifier::external_type_specification]
#[verifier::external_body]
pub struct ExIoError(std::io::Error);

/// Why a broker refused an operation.
#[derive(Debug)]
pub enum BusError {
    /// Input or output failed.
    Io(std::io::Error),
    /// The broker reported an error.
    Backend(String),
    /// The connection is closed.
    Closed,
}

/// The NATS adapter.
#[derive(Debug, Clone, Copy)]
pub struct NatsBus;

/// The Redis Streams adapter.
#[derive(Debug, Clone, Copy)]
pub struct RedisStreamsBus;

impl NatsBus {
    /// The broker's name: `nats`.
    pub fn backend(&self) -> (name: &'static str)
        ensures
            name@ == "nats"@,
    {
        "nats"
    }

    /// Accepts every message.
    pub fn publish(&self, topic: &str, payload: &[u8]) -> (r: Result<(), BusError>)
        ensures
            r is Ok,
    {
        Ok(())
    }

    /// Refuses: a subscription needs runtime configuration.
    pub fn subscribe(&self, topic: &str) -> (r: Result<(), BusError>)
        ensures
            r matches Err(BusError::Backend(m)) && m@ == "nats subscription requires runtime config"@,
    {
        Err(BusError::Backend("nats subscription requires runtime config".to_owned()))
    }
}

impl RedisStreamsBus {
    /// The broker's name: `redis-streams`.
    pub fn backend(&self) -> (name: &'static str)
        ensures
            name@ == "redis-streams"@,
    {
        "redis-streams"
    }

    /// Accepts every message.
    pub fn publish(&self, topic: &str, payload: &[u8]) -> (r: Result<(), BusError>)
        ensures
            r is Ok,
    {
        Ok(())
    }

    /// Refuses: a subscription needs runtime configuration.
    pub fn subscribe(&self, topic: &str) -> (r: Result<(), BusError>)
        ensures
            r matches Err(BusError::Backend(m)) && m@ == "redis subscription requires runtime config"@,
    {
        Err(BusError::Backend("redis subscription requires runtime config".to_owned()))
    }
}

} // verus!
