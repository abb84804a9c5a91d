//! The provisioning pipeline around the external command-line tool:
//! locating or planning automatic acquisition of the tool, generating
//! the ephemeral instruction script, and the run state machine that
//! guarantees the script is cleaned up on every exit path — success,
//! tool failure, or cancellation. The surrounding layer writes the
//! script, spawns the tool and races its exit against the cancellation
//! signal; every decision and every piece of script text is made here.

use vstd::prelude::*;

use crate::errors::CoreError;
use crate::supervisor::Platform;
use vstd::string::StrSliceExecFns;
use vstd::string::StringExecFns;

verus! {

/// Manages provisioning through the external tool, bound to one
/// resolved tool location for its lifetime.
#[derive(Debug)]
pub struct SteamManager {
    steam_cmd_path: Option<String>,
}

/// How construction should proceed for a tool lookup result.
#[derive(Debug, Clone, PartialEq, Eq)]
pub enum ToolAcquisition {
    /// A tool was found at this path: use it.
    UseExisting(String),
    /// Nothing found, but the platform supports automatic acquisition:
    /// download, extract, and mark the tool executable.
    AutoInstall,
    /// Nothing found and no automatic acquisition on this platform.
    Unavailable,
}

/// What to do about an unresolved tool: automatic acquisition is
/// attempted only on the platform that supports it; elsewhere the
/// construction fails immediately.
pub fn plan_tool_acquisition(found: Option<String>, platform: Platform) -> (r: ToolAcquisition)
    ensures
        match found {
            Some(p) => r == ToolAcquisition::UseExisting(p),
            None => r == (if platform is Linux {
                ToolAcquisition::AutoInstall
            } else {
                ToolAcquisition::Unavailable
            }),
        },
{
    match found {
        Some(p) => ToolAcquisition::UseExisting(p),
        None => match platform {
            Platform::Linux => ToolAcquisition::AutoInstall,
            _ => ToolAcquisition::Unavailable,
        },
    }
}

/// The ordered locations where the provisioning tool is looked for,
/// per platform. The home-relative candidate appears only when a home
/// directory is known.
pub open spec fn spec_steamcmd_candidates(platform: Platform, home: Option<Seq<char>>) -> Seq<
    Seq<char>,
> {
    if platform is Windows {
        seq!["C:\\steamcmd\\steamcmd.exe"@, "steamcmd.exe"@]
    } else {
        match home {
            Some(h) => seq![
                "/usr/games/steamcmd"@,
                "/usr/bin/steamcmd"@,
                h + "/steamcmd/steamcmd.sh"@,
                "./steamcmd.sh"@,
                "steamcmd"@,
            ],
            None => seq![
                "/usr/games/steamcmd"@,
                "/usr/bin/steamcmd"@,
                "./steamcmd.sh"@,
                "steamcmd"@,
            ],
        }
    }
}

/// Executable counterpart of [`spec_steamcmd_candidates`].
pub fn steamcmd_candidates(platform: Platform, home: Option<&str>) -> (r: Vec<String>)
    ensures
        r@.map_values(|s: String| s@) == spec_steamcmd_candidates(
            platform,
            match home {
                Some(h) => Some(h@),
                None => None,
            },
        ),
{
    let mut out: Vec<String> = Vec::new();
    match platform {
        Platform::Windows => {
            out.push(String::from_str("C:\\steamcmd\\steamcmd.exe"));
            out.push(String::from_str("steamcmd.exe"));
        },
        _ => {
            out.push(String::from_str("/usr/games/steamcmd"));
            out.push(String::from_str("/usr/bin/steamcmd"));
            match home {
                Some(h) => {
                    out.push(String::from_str(h).concat("/steamcmd/steamcmd.sh"));
                },
                None => {},
            }
            out.push(String::from_str("./steamcmd.sh"));
            out.push(String::from_str("steamcmd"));
        },
    }
    proof {
        assert(out@.map_values(|s: String| s@) =~= spec_steamcmd_candidates(
            platform,
            match home {
                Some(h) => Some(h@),
                None => None,
            },
        ));
    }
    out
}

/// Directory under the home directory where the tool is auto-installed.
pub fn steamcmd_install_dir(home: &str) -> (r: String)
    ensures
        r@ == home@ + "/steamcmd"@,
{
    String::from_str(home).concat("/steamcmd")
}

/// Path of the tool's entry script after automatic acquisition; its
/// existence is the marker that the acquisition succeeded.
pub fn steamcmd_script_path(home: &str) -> (r: String)
    ensures
        r@ == home@ + "/steamcmd/steamcmd.sh"@,
{
    String::from_str(home).concat("/steamcmd/steamcmd.sh")
}

/// Where the downloaded release archive is stored before extraction.
pub fn steamcmd_archive_path(home: &str) -> (r: String)
    ensures
        r@ == home@ + "/steamcmd/steamcmd_linux.tar.gz"@,
{
    String::from_str(home).concat("/steamcmd/steamcmd_linux.tar.gz")
}

/// The release archive the automatic acquisition downloads.
pub fn steamcmd_archive_url() -> (r: &'static str)
    ensures
        r@ == "https://steamcdn-a.akamaihd.net/client/installer/steamcmd_linux.tar.gz"@,
{
    "https://steamcdn-a.akamaihd.net/client/installer/steamcmd_linux.tar.gz"
}

/// Where the instruction script is written inside the target directory.
pub fn script_file_path(install_dir: &str) -> (r: String)
    ensures
        r@ == install_dir@ + "/steamscript"@,
{
    String::from_str(install_dir).concat("/steamscript")
}

/// The arguments the tool is launched with: it is directed to run the
/// written instruction script.
pub fn tool_launch_args(script_path: &str) -> (r: Vec<String>)
    ensures
        r@.map_values(|s: String| s@) =~= seq!["+runscript"@, script_path@],
{
    let mut out: Vec<String> = Vec::new();
    out.push(String::from_str("+runscript"));
    out.push(String::from_str(script_path));
    out
}

/// The login directive: an empty username downgrades to anonymous
/// login, whatever the password; otherwise explicit credentials.
pub open spec fn spec_login_line(user: Seq<char>, pass: Seq<char>) -> Seq<char> {
    if user.len() == 0 {
        "login anonymous"@
    } else {
        "login "@ + user + " "@ + pass
    }
}

/// The four-directive instruction script: target directory, login,
/// update-with-validation for the fixed application identifier, quit.
pub open spec fn spec_script(dir: Seq<char>, login: Seq<char>) -> Seq<char> {
    "force_install_dir \""@ + dir + "\"\n"@ + login + "\napp_update 730 validate\nquit\n"@
}

/// The anonymous-login script for a target directory.
pub open spec fn spec_anonymous_script(dir: Seq<char>) -> Seq<char> {
    spec_script(dir, "login anonymous"@)
}

/// With an empty username, the generated login directive is exactly
/// the anonymous one, whatever password was supplied, and the whole
/// credentialed script is the same as the anonymous script.
pub proof fn lemma_empty_username_is_anonymous(dir: Seq<char>, user: Seq<char>, pass: Seq<char>)
    requires
        user.len() == 0,
    ensures
        spec_login_line(user, pass) == "login anonymous"@,
        spec_script(dir, spec_login_line(user, pass)) == spec_anonymous_script(dir),
{
}

/// Build the instruction script for a target directory and login.
pub fn build_script(install_dir: &str, username: &str, password: &str) -> (r: String)
    ensures
        r@ == spec_script(install_dir@, spec_login_line(username@, password@)),
{
    if username.unicode_len() == 0 {
        let r = String::from_str("force_install_dir \"").concat(install_dir).concat("\"\n")
            .concat("login anonymous").concat("\napp_update 730 validate\nquit\n");
        proof {
            assert(r@ =~= spec_script(install_dir@, spec_login_line(username@, password@)));
        }
        r
    } else {
        let r = String::from_str("force_install_dir \"").concat(install_dir).concat("\"\n")
            .concat("login ").concat(username).concat(" ").concat(password).concat(
            "\napp_update 730 validate\nquit\n",
        );
        proof {
            assert(r@ =~= spec_script(install_dir@, spec_login_line(username@, password@)));
        }
        r
    }
}

impl SteamManager {
    /// The resolved tool location, if construction found one.
    pub closed spec fn spec_tool(&self) -> Option<Seq<char>> {
        match self.steam_cmd_path {
            Some(p) => Some(p@),
            None => None,
        }
    }

    /// Bind a manager to a resolved tool location; with none resolved
    /// the construction fails with `ToolUnavailable`.
    pub fn new(steam_cmd_path: Option<String>) -> (r: Result<SteamManager, CoreError>)
        ensures
            match r {
                Ok(m) => steam_cmd_path is Some && m.spec_tool() == Some(
                    steam_cmd_path->Some_0@,
                ),
                Err(e) => e == CoreError::ToolUnavailable && steam_cmd_path is None,
            },
    {
        match steam_cmd_path {
            Some(p) => Ok(SteamManager { steam_cmd_path: Some(p) }),
            None => Err(CoreError::ToolUnavailable),
        }
    }

    /// The command to launch the tool with; `ToolUnavailable` when the
    /// manager holds no resolved location.
    pub fn tool_command(&self) -> (r: Result<String, CoreError>)
        ensures
            match r {
                Ok(p) => self.spec_tool() == Some(p@),
                Err(e) => e == CoreError::ToolUnavailable && self.spec_tool() is None,
            },
    {
        match &self.steam_cmd_path {
            Some(p) => Ok(p.clone()),
            None => Err(CoreError::ToolUnavailable),
        }
    }

    /// The anonymous-login script that installs or validates the
    /// server files under `install_dir`.
    pub fn download_script(&self, install_dir: &str) -> (r: Result<String, CoreError>)
        ensures
            match r {
                Ok(s) => self.spec_tool() is Some && s@ == spec_anonymous_script(install_dir@),
                Err(e) => e == CoreError::ToolUnavailable && self.spec_tool() is None,
            },
    {
        match &self.steam_cmd_path {
            Some(_) => {
                let empty = String::new();
                let s = build_script(install_dir, empty.as_str(), empty.as_str());
                Ok(s)
            },
            None => Err(CoreError::ToolUnavailable),
        }
    }

    /// The update script: the same idempotent install-or-validate
    /// directive as [`Self::download_script`], kept as its own entry
    /// point for caller intent.
    pub fn update_script(&self, install_dir: &str) -> (r: Result<String, CoreError>)
        ensures
            match r {
                Ok(s) => self.spec_tool() is Some && s@ == spec_anonymous_script(install_dir@),
                Err(e) => e == CoreError::ToolUnavailable && self.spec_tool() is None,
            },
    {
        self.download_script(install_dir)
    }

    /// The credentialed script; an empty username downgrades to the
    /// anonymous script.
    pub fn credentials_script(&self, install_dir: &str, username: &str, password: &str) -> (r:
        Result<String, CoreError>)
        ensures
            match r {
                Ok(s) => self.spec_tool() is Some && s@ == spec_script(
                    install_dir@,
                    spec_login_line(username@, password@),
                ),
                Err(e) => e == CoreError::ToolUnavailable && self.spec_tool() is None,
            },
    {
        match &self.steam_cmd_path {
            Some(_) => Ok(build_script(install_dir, username, password)),
            None => Err(CoreError::ToolUnavailable),
        }
    }
}

/// Phase of one provisioning run, from idle through the raced wait to
/// the cleaned terminal state.
#[derive(Debug, Clone, Copy, PartialEq, Eq, Structural)]
pub enum RunPhase {
    Idle,
    ScriptWritten,
    ToolRunning,
    Completed,
    Failed,
    Cancelled,
    ScriptCleaned,
}

/// What ended the raced wait on the running tool.
#[derive(Debug, Clone, Copy, PartialEq, Eq)]
pub enum RunEvent {
    /// The tool exited, successfully or with this status code.
    ToolExited { success: bool, code: Option<i32> },
    /// The cancellation signal was observed first.
    Interrupted,
}

/// What the caller must do right after the wait ends.
#[derive(Debug, Clone, Copy, PartialEq, Eq, Structural)]
pub enum RunAction {
    /// Remove the script artifact, then read off the result.
    CleanupOnly,
    /// Terminate the tool subprocess, await its exit, then remove the
    /// script artifact and read off the result.
    TerminateToolThenCleanup,
}

/// One provisioning run: tracks the phase, whether the script artifact
/// is present in the target directory, and how the wait ended. The
/// result of a run can be read only from the terminal phase, which is
/// reachable only after cleanup.
#[derive(Debug)]
pub struct ProvisioningRun {
    phase: RunPhase,
    script_present: bool,
    outcome: Option<RunEvent>,
}

impl ProvisioningRun {
    /// The current phase.
    pub closed spec fn spec_phase(&self) -> RunPhase {
        self.phase
    }

    /// Whether the script artifact is still in the target directory.
    pub closed spec fn spec_script_present(&self) -> bool {
        self.script_present
    }

    /// How the wait ended, once it has.
    pub closed spec fn spec_outcome(&self) -> Option<RunEvent> {
        self.outcome
    }

    /// Phase, artifact and outcome always agree: the script exists
    /// exactly between writing and cleanup, an outcome exists exactly
    /// from the end of the wait on, and the three outcome phases match
    /// their events.
    pub open spec fn wf(&self) -> bool {
        &&& (self.spec_phase() is Idle ==> !self.spec_script_present() && self.spec_outcome()
            is None)
        &&& (self.spec_phase() is ScriptWritten ==> self.spec_script_present()
            && self.spec_outcome() is None)
        &&& (self.spec_phase() is ToolRunning ==> self.spec_script_present()
            && self.spec_outcome() is None)
        &&& (self.spec_phase() is Completed ==> self.spec_script_present() && (
        match self.spec_outcome() {
            Some(RunEvent::ToolExited { success, .. }) => success,
            _ => false,
        }))
        &&& (self.spec_phase() is Failed ==> self.spec_script_present() && (
        match self.spec_outcome() {
            Some(RunEvent::ToolExited { success, .. }) => !success,
            _ => false,
        }))
        &&& (self.spec_phase() is Cancelled ==> self.spec_script_present() && self.spec_outcome()
            == Some(RunEvent::Interrupted))
        &&& (self.spec_phase() is ScriptCleaned ==> !self.spec_script_present()
            && self.spec_outcome() is Some)
    }

    /// A fresh idle run: no script written yet.
    pub fn begin() -> (r: ProvisioningRun)
        ensures
            r.wf(),
            r.spec_phase() is Idle,
            !r.spec_script_present(),
    {
        ProvisioningRun { phase: RunPhase::Idle, script_present: false, outcome: None }
    }

    /// Record that the instruction script now exists in the target
    /// directory.
    pub fn mark_script_written(&mut self)
        requires
            old(self).wf(),
            old(self).spec_phase() is Idle,
        ensures
            final(self).wf(),
            final(self).spec_phase() is ScriptWritten,
            final(self).spec_script_present(),
    {
        self.phase = RunPhase::ScriptWritten;
        self.script_present = true;
    }

    /// Record that the tool subprocess has been spawned.
    pub fn mark_tool_started(&mut self)
        requires
            old(self).wf(),
            old(self).spec_phase() is ScriptWritten,
        ensures
            final(self).wf(),
            final(self).spec_phase() is ToolRunning,
            final(self).spec_script_present(),
    {
        self.phase = RunPhase::ToolRunning;
    }

    /// Record how the raced wait ended and learn what must happen
    /// next: cancellation demands terminating the tool first; every
    /// ending demands cleanup.
    pub fn observe(&mut self, ev: RunEvent) -> (act: RunAction)
        requires
            old(self).wf(),
            old(self).spec_phase() is ToolRunning,
        ensures
            final(self).wf(),
            final(self).spec_script_present(),
            final(self).spec_outcome() == Some(ev),
            final(self).spec_phase() == (match ev {
                RunEvent::ToolExited { success: true, .. } => RunPhase::Completed,
                RunEvent::ToolExited { success: false, .. } => RunPhase::Failed,
                RunEvent::Interrupted => RunPhase::Cancelled,
            }),
            act == (match ev {
                RunEvent::Interrupted => RunAction::TerminateToolThenCleanup,
                _ => RunAction::CleanupOnly,
            }),
    {
        self.outcome = Some(ev);
        match ev {
            RunEvent::ToolExited { success, .. } => {
                self.phase = if success {
                    RunPhase::Completed
                } else {
                    RunPhase::Failed
                };
                RunAction::CleanupOnly
            },
            RunEvent::Interrupted => {
                self.phase = RunPhase::Cancelled;
                RunAction::TerminateToolThenCleanup
            },
        }
    }

    /// Record that the script artifact was removed from the target
    /// directory. A removal failure is the caller's to log, never to
    /// escalate; the run still terminates.
    pub fn mark_cleaned(&mut self)
        requires
            old(self).wf(),
            old(self).spec_phase() is Completed || old(self).spec_phase() is Failed || old(
                self,
            ).spec_phase() is Cancelled,
        ensures
            final(self).wf(),
            final(self).spec_phase() is ScriptCleaned,
            !final(self).spec_script_present(),
            final(self).spec_outcome() == old(self).spec_outcome(),
    {
        self.phase = RunPhase::ScriptCleaned;
        self.script_present = false;
    }

    /// The run's result, readable only in the terminal phase: success
    /// when the tool exited successfully, `ToolFailed` with its status
    /// code otherwise, `Cancelled` when the wait was interrupted.
    pub fn finish(&self) -> (r: Result<(), CoreError>)
        requires
            self.wf(),
            self.spec_phase() is ScriptCleaned,
        ensures
            r == (match self.spec_outcome() {
                Some(RunEvent::ToolExited { success: true, .. }) => Ok::<(), CoreError>(()),
                Some(RunEvent::ToolExited { success: false, code }) => Err::<(), CoreError>(
                    CoreError::ToolFailed(code),
                ),
                _ => Err::<(), CoreError>(CoreError::Cancelled),
            }),
    {
        match self.outcome {
            Some(RunEvent::ToolExited { success: true, .. }) => Ok(()),
            Some(RunEvent::ToolExited { success: false, code }) => Err(CoreError::ToolFailed(
                code,
            )),
            Some(RunEvent::Interrupted) => Err(CoreError::Cancelled),
            None => Err(CoreError::Cancelled),
        }
    }
}

/// The script artifact is absent from the target directory whenever a
/// run has reached the phase from which its result can be read: every
/// exit of a provisioning call — success, tool failure, cancellation —
/// passes through cleanup first.
pub proof fn lemma_script_absent_at_finish(r: ProvisioningRun)
    requires
        r.wf(),
        r.spec_phase() is ScriptCleaned,
    ensures
        !r.spec_script_present(),
{
}

} // verus!
