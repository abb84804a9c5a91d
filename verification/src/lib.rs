//! Core library for managing locally installed game-server instances:
//! a name-to-path registry, a line-oriented server configuration format,
//! process-supervision state, and the provisioning pipeline that drives
//! an external command-line tool through an ephemeral instruction script.

use vstd::prelude::*;

pub mod addons;
pub mod errors;
pub mod registry;
pub mod server_config;
pub mod steam;
pub mod strutil;
pub mod supervisor;

verus! {

/// Status of a supervised server process, always recomputed from the
/// current handle state, never cached.
#[derive(Debug, Clone, PartialEq, Eq, Structural)]
pub enum ServerStatus {
    Stopped,
    Starting,
    Running,
    Stopping,
}

} // verus!
