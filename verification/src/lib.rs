//! A background-task supervisor for a small desktop utility: a cancellable
//! polling worker scans the host environment for entities whose label starts
//! with a target prefix and repositions each newly discovered one, while
//! connected clients issue start, stop, kill and one-shot template commands
//! against a single shared piece of process state.
//!
//! The crate holds the decision core — lifecycle state machine, per-tick
//! selection, command dispatch, reply texts and the step simplification of
//! the one-shot pipeline — with contracts; the host layer around it does the
//! platform calls, the transport and the file handling.

pub mod config;
pub mod geometry;
pub mod handlers;
pub mod realtime;
pub mod supervisor;
pub mod tfs;
pub mod watcher;
