//! Aggregation core of a food-data ingestion service.
//!
//! The crate holds the decisions of a periodic sweep over paginated upstream
//! food sources: the run gate that enforces a cooldown between sweeps, the
//! scheduler that orders aggregators by wake time, the per-source supervisor
//! that dispatches page fetches under a concurrency bound, a rate limiter and a
//! retry policy, and the normalizer that turns a page of entries into
//! deduplicated bulk upserts. Input and output (HTTP, database, timers) stay
//! with the caller, which performs the actions these state machines choose.
use vstd::prelude::*;

pub mod api;
pub mod clock;
pub mod limiter;
pub mod models;
pub mod normalizer;
pub mod scheduler;
pub mod store;
pub mod supervisor;
pub mod usda;

verus! {

/// Outcome of a sweep, or of one run of an aggregator.
#[derive(Debug, Clone, Copy, PartialEq, Eq, Structural)]
pub enum AggregateStatus {
    /// Every page currently available was dispatched and settled.
    Finished,
    /// The sweep yielded; it should be resumed at this wall-clock instant
    /// (milliseconds since the Unix epoch).
    PendingUntil(i64),
}

/// Why fetching a page failed. Every kind is retried by the supervisor.
#[derive(Debug, Clone, PartialEq, Eq)]
pub enum SourceError {
    /// The request did not complete (connection, timeout, transport).
    Transport(String),
    /// The body could not be decoded into a page.
    Deserialize(String),
    /// The upstream answered with this non-success HTTP status.
    Upstream(u16),
}

/// Why the supervisor could not go on.
#[derive(Debug, Clone, PartialEq, Eq)]
pub enum SupervisorError {
    /// A database statement failed; the message is the driver's.
    Database(String),
    /// A fetch task could not be joined; the message is the runtime's.
    Join(String),
}

/// Why a run of an aggregator failed.
#[derive(Debug, Clone, PartialEq, Eq)]
pub enum AggregatorError {
    /// A database statement failed; the message is the driver's.
    Database(String),
    Supervisor(SupervisorError),
    FoodSource(SourceError),
}

} // verus!
