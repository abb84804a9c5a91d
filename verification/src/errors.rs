//! Error kinds shared by every operation of the library. All operations
//! surface failures explicitly; none of the verified functions panic.

use vstd::prelude::*;

verus! {

/// One variant per expected failure condition of the core operations.
#[derive(Debug, Clone, PartialEq, Eq, Structural)]
pub enum CoreError {
    /// The server executable was found at none of the candidate paths.
    ExecutableNotFound,
    /// A start was requested while a process handle is already held.
    AlreadyRunning,
    /// The provisioning tool could not be located or acquired.
    ToolUnavailable,
    /// The provisioning tool exited with the given nonzero status code,
    /// or with no reported code.
    ToolFailed(Option<i32>),
    /// A provisioning run was interrupted by the cancellation signal.
    Cancelled,
    /// The named backup set does not exist.
    BackupNotFound,
    /// The configuration key is not one of the recognized directives.
    UnknownKey,
    /// A configuration value could not be parsed for its key.
    InvalidValue,
    /// A wrapped filesystem or network failure reported by the caller.
    IoFailure,
    /// A registry lookup found no entry under the given name.
    NotFound,
    /// A registry insert found an entry already under the given name.
    AlreadyExists,
}

} // verus!
