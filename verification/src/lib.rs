//! Ingestion and track-store subsystem for SBS-1 aircraft surveillance feeds.
//!
//! The library decodes SBS-1 text lines into typed update requests, maintains
//! a table of aircraft tracks keyed by transponder address, and drives the
//! reconnect and eviction state machines. All I/O stays outside: callers hand
//! in text lines and events, and read plain values back.

pub mod audit;
pub mod connector;
pub mod datetime;
pub mod decode;
pub mod laws;
pub mod math;
pub mod parse;
pub mod sbs;
pub mod squawks;
pub mod store;
pub mod terrain;
