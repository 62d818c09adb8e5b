//! A supervisor for long-running shell commands.
//!
//! The library holds the bookkeeping and every decision of the supervisor:
//! the task store, the status of each task, the registry of running
//! instances, the liveness and restart policy, and the shaping of process
//! output into log bytes and live notifications. Opening terminals, spawning
//! processes, threads, files and the delivery of notifications are left to the
//! host program, which feeds the outcomes back in as plain values.

pub mod model;
pub mod state;
pub mod launch;
pub mod external;
pub mod output;
pub mod laws;
