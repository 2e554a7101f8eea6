//! The errors that supervision reports to its caller.

use vstd::prelude::*;
use crate::path::FsPath;

verus! {

/// What went wrong while locating, launching or running a backend.
#[derive(Debug)]
pub enum BackendError {
    /// No candidate executable was accepted; `checked` lists every
    /// candidate path in the order it was considered.
    ResolutionFailed { backend: String, checked: Vec<FsPath> },
    /// The operating system refused to start the process.
    LaunchFailed { reason: String },
    /// The model file handed to the supervisor does not exist.
    ModelNotFound { path: FsPath },
    /// An input file that a one-shot invocation depends on does not exist.
    MissingArtifact { path: FsPath },
    /// A one-shot process ended without success; its whole output is kept.
    InvocationFailed { code: Option<i32>, stdout: Vec<u8>, stderr: Vec<u8> },
}

} // verus!
