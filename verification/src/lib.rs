//! Session layer of a client for an append-only, strictly ordered remote log:
//! batching of records, the append and read exchanges as state machines,
//! command records, metering and error reporting.

pub mod admin;
pub mod append;
pub mod batcher;
pub mod command;
pub mod error;
pub mod metrics;
pub mod read;
pub mod record;
pub mod session;
pub mod stdio;
