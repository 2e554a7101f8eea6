//! Supervision of local inference backends: locating their executables,
//! deciding when to launch and terminate the long-running server, and
//! interpreting the outcome of one-shot invocations.
//!
//! Everything here is a decision over plain values. Probing the filesystem,
//! spawning and killing processes and writing the diagnostic log are left to
//! the caller, who hands the observed facts back in.

pub mod path;
pub mod error;
pub mod locator;
pub mod backends;
pub mod models;
pub mod supervisor;
pub mod invoker;
pub mod diagnostics;
