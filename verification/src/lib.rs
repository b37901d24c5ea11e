//! Buffering, batching and flush scheduling for captured process output
//! that is shipped to an append-only log sink.

pub mod event;
pub mod sorting;
pub mod batching;
pub mod buffer;
pub mod clock;
pub mod draining;
pub mod ingest;
pub mod provision;
pub mod scheduler;
