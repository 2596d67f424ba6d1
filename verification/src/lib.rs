//! Crowd simulation core: the spatial grid that buckets people into cells,
//! the server's rolling replication schedule, and the client's handling of
//! replicated person state.

pub mod config;
pub mod spatial;
pub mod state;
pub mod sync;
pub mod schedule;
pub mod simulation;
pub mod markers;
