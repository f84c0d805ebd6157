//! A verified core for a file-change watcher.
//!
//! The library tracks a set of files, each under a one-shot modification
//! watch, and decides per notification whether the file's content really
//! changed by comparing content digests. The OS-facing work (registering
//! watches, reading files, spawning the configured command) is left to the
//! surrounding program; every decision about the watch set and the change
//! list is made here, under contract.

pub mod digest;
pub mod errors;
pub mod laws;
pub mod paths;
pub mod registry;
