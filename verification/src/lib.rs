//! Coordination layer between an append-only, content-addressed event store
//! and a single front-end subscriber: a frame log with strictly increasing
//! ids, a content-addressable blob store keyed by integrity hashes, a
//! bootstrap step that plants exactly one sentinel frame in a fresh store,
//! a replay step that forwards the whole log to the subscriber in order,
//! and the command surface that appends events and reads content back.

pub mod frame;
pub mod cas;
pub mod log;
pub mod sink;
pub mod store;
pub mod bootstrap;
pub mod replay;
pub mod commands;
