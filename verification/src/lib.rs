//! Coordination logic for draining an append-only stream of numbered entries
//! through a shared consumer group: entry-id arithmetic, the per-consumer
//! recovery/live state machine with idle backoff, the producer and chaos
//! controller step functions, and the orchestrator's setup and shutdown plans.

pub mod chaos;
pub mod consumer;
pub mod ids;
pub mod measurement;
pub mod orchestrator;
pub mod primes;
pub mod producer;
mod rng;
pub mod window;

use vstd::prelude::*;

verus! {

/// Number of logical consumers in the fleet.
pub const MEMBERS: usize = 10;

/// Connection parameters for the log store, as gathered from the
/// command line.
#[derive(Clone, Debug)]
pub struct Config {
    pub host: String,
    pub port: u16,
    pub db: i64,
    pub username: Option<String>,
    pub password: Option<String>,
}

/// Failure taxonomy of the coordination core.
#[derive(Clone, Copy, PartialEq, Eq, Structural, Debug)]
pub enum CoreError {
    /// Connection or transport failure talking to the log store; fatal to
    /// the affected consumer's read loop.
    StoreUnavailable,
    /// An acknowledgment did not go through; the entry stays pending and
    /// will be redelivered during a later recovery pass.
    AckFailed,
    /// A consumer process could not be started; fatal to fleet startup.
    ProcessSpawnFailed,
    /// A process chosen for termination was already gone; treated as
    /// already satisfied.
    ProcessNotFound,
    /// An entry id string failed to parse.
    MalformedId,
}

} // verus!
