//! A rollback-based network synchronization core for a deterministic
//! two-player simulation.
//!
//! Two peers each run an identical simulation. Local latency is hidden by
//! simulating ahead of the confirmed remote input: missing remote inputs are
//! predicted, and when a late packet contradicts a prediction the session
//! restores an earlier snapshot and re-simulates forward with the corrected
//! input. The library owns the input history, the snapshot ring and the
//! confirm/predict/rollback protocol; rendering, input devices and the wire
//! are left to the caller.

pub mod checksum;
pub mod config;
pub mod input;
pub mod session;
pub mod snapshot;
pub mod state;
pub mod wire;
