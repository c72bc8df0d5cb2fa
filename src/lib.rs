//! Bookkeeping for an incremental-computation session: named inputs, cached
//! arrangements keyed by logical plans, and demultiplexed telemetry.
pub mod assoc;
pub mod inputs;
pub mod logging;
pub mod manager;
pub mod plan;
pub mod time;
pub mod traces;
