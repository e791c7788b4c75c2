//! Compute-contributor node agent: capability probe, orchestrator session,
//! and job executor, with the wire codec and all decision logic verified.

use vstd::prelude::*;

pub mod agent;
pub mod api;
pub mod config;
pub mod container;
pub mod container_runtime;
pub mod executor;
pub mod hardware;
pub mod json;
pub mod models;
pub mod protocol;
pub mod session;
pub mod text;

verus! {

/// Interval between heartbeat frames on a connected session, in milliseconds.
pub const HEARTBEAT_INTERVAL_MS: u64 = 30_000;

/// Delay before reopening the control channel after a transport error.
pub const RECONNECT_DELAY_MS: u64 = 5_000;

/// How long a fresh connection may wait for the `registered` reply.
pub const REGISTRATION_DEADLINE_MS: u64 = 30_000;

} // verus!
