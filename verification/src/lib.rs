//! Session/channel concurrency and flow-control engine for a remote
//! administration tool.
//!
//! The crate models the state of a multiplexed secure transport: prioritised
//! input buffering with backpressure, per-channel liveness tracking, worker
//! lifecycle management, a session pool that routes command execution away
//! from busy interactive transports, and a passive health monitor.  All state
//! transitions are verified; the actual network, file and clock access lives
//! in the surrounding (unverified) application layer, which feeds plain
//! values in and out.

pub mod channel_state;
pub mod credentials;
pub mod detection;
pub mod docker;
pub mod errors;
pub mod flow_control;
mod ids;
pub mod log_commands;
pub mod monitor;
pub mod registry;
pub mod session_pool;
pub mod settings;
pub mod text;
pub mod theme;
pub mod thread_lifecycle;
pub mod types;
