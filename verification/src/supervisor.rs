//! Process supervision for one server instance: an exclusive
//! two-state process-handle slot, the candidate table for locating the
//! server executable, status inference from a non-blocking probe, and
//! the best-effort backup model for the fixed set of configuration
//! files. The surrounding layer performs the actual spawning, signal
//! delivery and file copies; every decision is made here.

use vstd::prelude::*;

use crate::errors::CoreError;
use crate::ServerStatus;
use vstd::string::StringExecFns;

verus! {

/// The platforms the candidate tables distinguish.
#[derive(Debug, Clone, Copy, PartialEq, Eq, Structural)]
pub enum Platform {
    Windows,
    Linux,
    Other,
}

/// What the caller must do to the subprocess after a stop request.
#[derive(Debug, Clone, Copy, PartialEq, Eq, Structural)]
pub enum StopAction {
    /// No handle was held: nothing to terminate.
    NoAction,
    /// Send a termination request to the identified process and await
    /// its exit unconditionally.
    Terminate(u64),
}

/// Result of a non-blocking liveness check on the held process.
#[derive(Debug, Clone, Copy, PartialEq, Eq, Structural)]
pub enum ProbeOutcome {
    /// The process has already exited.
    Exited,
    /// The process is still running.
    StillRunning,
    /// The check itself failed.
    CheckFailed,
}

/// Supervises at most one live subprocess for the server binary under
/// one install directory. The handle is an opaque identifier chosen by
/// the caller that owns the operating-system process.
#[derive(Debug)]
pub struct ServerManager {
    server_path: String,
    process: Option<u64>,
}

/// The ordered candidate paths for the server executable under
/// `server_path`, per platform: the platform build directory first,
/// then a flat fallback location.
pub open spec fn spec_executable_candidates(server_path: Seq<char>, platform: Platform) -> Seq<
    Seq<char>,
> {
    seq![
        server_path + (if platform is Windows {
            "/game/bin/linuxsteamrt64/cs2.exe"@
        } else {
            "/game/bin/linuxsteamrt64/cs2"@
        }),
        server_path + "/cs2.exe"@,
    ]
}

impl ServerManager {
    /// Which handle the supervisor holds, if any.
    pub closed spec fn spec_process(&self) -> Option<u64> {
        self.process
    }

    /// The install directory this supervisor is bound to.
    pub closed spec fn spec_path(&self) -> Seq<char> {
        self.server_path@
    }

    /// A new supervisor bound to an install directory, holding no handle.
    pub fn new(server_path: String) -> (r: ServerManager)
        ensures
            r.spec_path() == server_path@,
            r.spec_process() is None,
    {
        ServerManager { server_path, process: None }
    }

    /// The ordered executable locations to probe for this instance.
    pub fn executable_candidates(&self, platform: Platform) -> (r: Vec<String>)
        ensures
            r@.map_values(|s: String| s@) == spec_executable_candidates(
                self.spec_path(),
                platform,
            ),
    {
        let mut out: Vec<String> = Vec::new();
        let primary = match platform {
            Platform::Windows => self.server_path.clone().concat(
                "/game/bin/linuxsteamrt64/cs2.exe",
            ),
            _ => self.server_path.clone().concat("/game/bin/linuxsteamrt64/cs2"),
        };
        out.push(primary);
        out.push(self.server_path.clone().concat("/cs2.exe"));
        proof {
            assert(out@.map_values(|s: String| s@) =~= spec_executable_candidates(
                self.spec_path(),
                platform,
            ));
        }
        out
    }

    /// Pick the first candidate reported to exist; `ExecutableNotFound`
    /// when none does.
    pub fn get_executable_path(candidates: &Vec<String>, exists: &Vec<bool>) -> (r: Result<
        String,
        CoreError,
    >)
        requires
            candidates@.len() == exists@.len(),
        ensures
            match r {
                Ok(p) => exists|i: int|
                    0 <= i < exists@.len() && exists@[i] && p@ == candidates@[i]@ && forall|j: int|
                        0 <= j < i ==> !exists@[j],
                Err(e) => e == CoreError::ExecutableNotFound && forall|i: int|
                    0 <= i < exists@.len() ==> !exists@[i],
            },
    {
        let n = candidates.len();
        let mut i: usize = 0;
        while i < n
            invariant
                n == candidates@.len(),
                n == exists@.len(),
                i <= n,
                forall|j: int| 0 <= j < i ==> !exists@[j],
            decreases n - i,
        {
            if exists[i] {
                return Ok(candidates[i].clone());
            }
            i = i + 1;
        }
        Err(CoreError::ExecutableNotFound)
    }

    /// Whether a start may proceed: `AlreadyRunning` while a handle is
    /// held. A second start without an intervening stop must fail
    /// deterministically rather than queue or replace the handle.
    pub fn can_start(&self) -> (r: Result<(), CoreError>)
        ensures
            match r {
                Ok(_) => self.spec_process() is None,
                Err(e) => e == CoreError::AlreadyRunning && self.spec_process() is Some,
            },
    {
        match self.process {
            Some(_) => Err(CoreError::AlreadyRunning),
            None => Ok(()),
        }
    }

    /// Take ownership of a freshly spawned process. Fails with
    /// `AlreadyRunning` when a handle is already held, leaving the
    /// original handle untouched.
    pub fn attach_handle(&mut self, handle: u64) -> (r: Result<(), CoreError>)
        ensures
            final(self).spec_path() == old(self).spec_path(),
            match r {
                Ok(_) => old(self).spec_process() is None && final(self).spec_process() == Some(
                    handle,
                ),
                Err(e) => e == CoreError::AlreadyRunning && old(self).spec_process() is Some
                    && final(self).spec_process() == old(self).spec_process(),
            },
    {
        match self.process {
            Some(_) => Err(CoreError::AlreadyRunning),
            None => {
                self.process = Some(handle);
                Ok(())
            },
        }
    }

    /// Release the slot. With no handle held this is a success that
    /// demands no subprocess action; otherwise the caller must
    /// terminate the identified process and await its exit, the handle
    /// being discarded either way.
    pub fn stop(&mut self) -> (r: StopAction)
        ensures
            final(self).spec_path() == old(self).spec_path(),
            final(self).spec_process() is None,
            match old(self).spec_process() {
                None => r == StopAction::NoAction,
                Some(h) => r == StopAction::Terminate(h),
            },
    {
        match self.process {
            None => StopAction::NoAction,
            Some(h) => {
                self.process = None;
                StopAction::Terminate(h)
            },
        }
    }

    /// Run state inferred from the probe of the held process: `Exited`
    /// discards the handle and reports `Stopped`; a failed check
    /// reports `Stopped` as the fail-safe default without surfacing an
    /// error; with no handle held the state is reported `Stopped`,
    /// since nothing certain is known about an externally started
    /// process.
    pub fn get_status(&mut self, probe: Option<ProbeOutcome>) -> (r: ServerStatus)
        requires
            (probe is Some) == (old(self).spec_process() is Some),
        ensures
            final(self).spec_path() == old(self).spec_path(),
            match probe {
                None => r == ServerStatus::Stopped && final(self).spec_process() == old(
                    self).spec_process(),
                Some(ProbeOutcome::StillRunning) => r == ServerStatus::Running && final(
                    self).spec_process() == old(self).spec_process(),
                Some(ProbeOutcome::Exited) => r == ServerStatus::Stopped && final(
                    self).spec_process() is None,
                Some(ProbeOutcome::CheckFailed) => r == ServerStatus::Stopped && final(
                    self).spec_process() == old(self).spec_process(),
            },
    {
        match probe {
            None => ServerStatus::Stopped,
            Some(ProbeOutcome::StillRunning) => ServerStatus::Running,
            Some(ProbeOutcome::Exited) => {
                self.process = None;
                ServerStatus::Stopped
            },
            Some(ProbeOutcome::CheckFailed) => ServerStatus::Stopped,
        }
    }

    /// No live telemetry exists for the running server process, so no
    /// player count is ever reported.
    pub fn get_player_count(&self) -> (r: Option<u32>)
        ensures
            r is None,
    {
        None
    }
}

/// The arguments the server binary is launched with: it is directed
/// to execute its configuration file.
pub fn server_launch_args() -> (r: Vec<String>)
    ensures
        r@.map_values(|s: String| s@) =~= seq!["+exec"@, "server.cfg"@],
{
    let mut out: Vec<String> = Vec::new();
    out.push(String::from_str("+exec"));
    out.push(String::from_str("server.cfg"));
    out
}

/// The fixed configuration filenames a backup set covers, in order.
pub fn backup_file_names() -> (r: Vec<String>)
    ensures
        r@.map_values(|s: String| s@) =~= seq!["server.cfg"@, "autoexec.cfg"@],
{
    let mut out: Vec<String> = Vec::new();
    out.push(String::from_str("server.cfg"));
    out.push(String::from_str("autoexec.cfg"));
    out
}

/// Contents of one file slot: present with its text, or absent.
pub open spec fn file_view(e: Option<String>) -> Option<Seq<char>> {
    match e {
        Some(s) => Some(s@),
        None => None,
    }
}

/// The contents of the fixed set of configuration files of one
/// instance, in the order of [`backup_file_names`]; an absent file is
/// `None`.
#[derive(Debug, Clone, PartialEq, Eq)]
pub struct ConfigFileSet {
    pub entries: Vec<Option<String>>,
}

/// Restoring `backup` over `live`: every file present in the backup is
/// copied back, files absent from the backup are skipped.
pub open spec fn spec_restore(live: Seq<Option<Seq<char>>>, backup: Seq<Option<Seq<char>>>) -> Seq<
    Option<Seq<char>>,
> {
    Seq::new(live.len(), |i: int| if backup[i] is Some {
        backup[i]
    } else {
        live[i]
    })
}

impl ConfigFileSet {
    /// The file contents as a mathematical sequence.
    pub open spec fn files(&self) -> Seq<Option<Seq<char>>> {
        Seq::new(self.entries@.len(), |i: int| file_view(self.entries@[i]))
    }

    /// Take a backup: a copy of every present file; missing files are
    /// skipped silently and stay absent from the backup set.
    pub fn create_backup(&self) -> (r: ConfigFileSet)
        ensures
            r.files() == self.files(),
    {
        let n = self.entries.len();
        let mut out: Vec<Option<String>> = Vec::new();
        let mut i: usize = 0;
        while i < n
            invariant
                n == self.entries@.len(),
                i <= n,
                out@.len() == i,
                forall|j: int| 0 <= j < i ==> file_view(out@[j]) == file_view(self.entries@[j]),
            decreases n - i,
        {
            match &self.entries[i] {
                Some(c) => {
                    out.push(Some(c.clone()));
                },
                None => {
                    out.push(None);
                },
            }
            i = i + 1;
        }
        let r = ConfigFileSet { entries: out };
        proof {
            assert(r.files() =~= self.files());
        }
        r
    }

    /// Restore a backup set over the live files: fails with
    /// `BackupNotFound` when no backup of that name exists; otherwise
    /// every file present in the backup is copied back and files
    /// absent from the backup are left as they are.
    pub fn restore_backup(&self, backup: Option<&ConfigFileSet>) -> (r: Result<
        ConfigFileSet,
        CoreError,
    >)
        requires
            match backup {
                Some(b) => b.entries@.len() == self.entries@.len(),
                None => true,
            },
        ensures
            match r {
                Ok(restored) => backup is Some && restored.files() == spec_restore(
                    self.files(),
                    backup->Some_0.files(),
                ),
                Err(e) => e == CoreError::BackupNotFound && backup is None,
            },
    {
        let b = match backup {
            Some(b) => b,
            None => {
                return Err(CoreError::BackupNotFound);
            },
        };
        let n = self.entries.len();
        let mut out: Vec<Option<String>> = Vec::new();
        let mut i: usize = 0;
        while i < n
            invariant
                n == self.entries@.len(),
                n == b.entries@.len(),
                i <= n,
                out@.len() == i,
                forall|j: int|
                    0 <= j < i ==> file_view(out@[j]) == (if file_view(b.entries@[j]) is Some {
                        file_view(b.entries@[j])
                    } else {
                        file_view(self.entries@[j])
                    }),
            decreases n - i,
        {
            match &b.entries[i] {
                Some(c) => {
                    out.push(Some(c.clone()));
                },
                None => {
                    match &self.entries[i] {
                        Some(c) => {
                            out.push(Some(c.clone()));
                        },
                        None => {
                            out.push(None);
                        },
                    }
                },
            }
            i = i + 1;
        }
        let r = ConfigFileSet { entries: out };
        proof {
            assert(r.files() =~= spec_restore(self.files(), b.files()));
        }
        Ok(r)
    }
}

/// Taking a backup, changing the live files in any way, and restoring
/// that backup brings back the exact earlier content of every file
/// that existed when the backup was taken; files that did not exist
/// then are left at their modified state.
pub proof fn lemma_restore_recovers_backup(
    live: Seq<Option<Seq<char>>>,
    modified: Seq<Option<Seq<char>>>,
)
    requires
        modified.len() == live.len(),
    ensures
        forall|i: int|
            0 <= i < live.len() && live[i] is Some ==> spec_restore(modified, live)[i] == live[i],
        forall|i: int|
            0 <= i < live.len() && live[i] is None ==> spec_restore(modified, live)[i]
                == modified[i],
{
}

} // verus!
