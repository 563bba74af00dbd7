//! A process sandbox for running untrusted executables under resource,
//! filesystem and system-call restrictions.
//!
//! This crate holds the decision logic of the sandbox: configuration,
//! syscall-filter construction, the planning of the isolation steps
//! (identity mapping, filesystem assembly, resource limits), the decoding
//! of kernel wait statuses into an exit disposition, and the JSON form of
//! the result record. The surrounding process machinery (clone, mounts,
//! seccomp loading, signal handlers) consumes the plans and values built
//! here and reports raw outcomes back for decoding.

use vstd::prelude::*;

pub mod cli;
pub mod configuration;
pub mod decimal;
pub mod filesystem;
pub mod isolate;
pub mod json;
pub mod limits;
pub mod result;
pub mod supervisor;
pub mod syscall_filter;

verus! {

/// An error raised by the sandbox itself, as opposed to a failure of the
/// sandboxed program (which is reported through the result record).
#[derive(Debug)]
pub enum SandboxError {
    /// A mount directive or mount entry was malformed; carries the offending token.
    InvalidMount(String),
    /// The supervisor could not run or reap the child; carries a description.
    Supervisor(String),
}

/// A sandbox backend: starts a configured child and reports how it ended.
pub trait Sandbox: Sized {
    /// Launch the sandbox for the given configuration.
    fn run(config: crate::configuration::SandboxConfiguration) -> Result<Self, SandboxError>;

    /// Wait for the sandboxed program to terminate and return the result
    /// record.
    fn wait(self) -> Result<crate::result::SandboxExecutionResult, SandboxError>;

    /// Whether this backend actually isolates the child (namespaces and a
    /// syscall filter), as opposed to the degraded resource-limit-only one.
    fn is_secure() -> bool;
}

} // verus!
