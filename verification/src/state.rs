//! Events that the application broadcasts to its listeners.

use vstd::prelude::*;

verus! {

/// Something that happened in the application.
#[derive(Debug)]
pub enum AppEvent {
    DetectionStarted,
    DetectionFinished { matched: bool },
    Mismatch { detected: Vec<String>, allowed: Vec<String> },
    KillRequested { pids: Vec<u32> },
    Killed { count: usize },
    ConfigUpdated,
    LogLine { line: String },
}

} // verus!
