//! Core of a minimal distributed job-execution cluster.
//!
//! A coordinator accepts opaque byte payloads as units of work and hands
//! them out for execution; workers compile a shared program source once
//! (caching the artifact by its content) and run it against each payload.
//! A local dispatcher reuses the same queue machinery with an in-process
//! callable instead of a remote worker.
//!
//! This crate holds the verified logic: the length-prefixed wire framing,
//! the task queue with its idle/succeeded discipline, the coordinator's
//! dispatch decisions, and the worker's compile cache.  The surrounding
//! network, process and thread plumbing is unverified and lives outside
//! the library.

pub mod client;
pub mod cluster;
pub mod codec;
pub mod store;
pub mod threads;
