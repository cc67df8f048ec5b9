//! The errors of the library, holding plain values.
use vstd::prelude::*;

verus! {

/// Everything that can go wrong while loading the configuration, tracking niri's state
/// or reconciling it. Paths and the texts of operating-system errors are carried as
/// strings; a timeout is carried in nanoseconds.
#[derive(Debug, PartialEq, Eq)]
pub enum NiriAutostartError {
    MissingDefaultConfigBase,
    InsecureRuntimeDirectory { path: String },
    ConfigRead { path: String, source: String },
    ConfigParse { path: String, message: String },
    RuntimeStateRead { path: String, source: String },
    RuntimeStateWrite { path: String, source: String },
    RuntimeStateParse { path: String, message: String },
    RuntimeStateSerialize(String),
    Validation(String),
    Ipc(String),
    Niri(String),
    UnexpectedReply { context: String },
    Timeout { what: String, timeout_nanos: u128 },
    EventStreamClosed(String),
    MissingWorkspace(String),
    MissingWindow(String),
    NonAdjacentColumn { app_id: String, actual: usize, expected_left: usize },
}

} // verus!
