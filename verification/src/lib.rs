//! Lifecycle supervisor for a fixed set of named worker executables.
//!
//! The library decides when a named worker process should be spawned and
//! when it should be terminated, and ties those decisions to the host
//! window's lifecycle.  It never touches the operating system itself:
//! every decision is returned as a request value (a command line plus a
//! creation flag) that the embedding host dispatches.

pub mod command;
pub mod supervisor;
