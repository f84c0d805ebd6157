//! The watcher's error taxonomy. Every failure is propagated to the top of
//! the change-detection loop and ends the run; there is no local recovery.

use vstd::prelude::*;

verus! {

/// Why the watcher stops.
#[derive(Debug)]
pub enum WatcherError {
    /// A file could not be read while fingerprinting it.
    Read { path: String, cause: String },
    /// A modification watch could not be registered for the path.
    Watch { path: String, cause: String },
    /// A notification named a handle the registry does not hold: an internal
    /// consistency violation, never to be continued from.
    Consistency { handle: i32 },
    /// The configured command could not be started.
    Spawn { command: String, cause: String },
    /// Waiting for the spawned command failed.
    Wait { command: String, cause: String },
}

} // verus!
