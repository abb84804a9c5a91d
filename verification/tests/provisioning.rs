use cs2_server::errors::CoreError;
use cs2_server::steam::{
    build_script, plan_tool_acquisition, script_file_path, steamcmd_archive_path,
    steamcmd_archive_url, steamcmd_candidates, steamcmd_install_dir, steamcmd_script_path,
    tool_launch_args, ProvisioningRun, RunAction, RunEvent, RunPhase, SteamManager,
    ToolAcquisition,
};
use cs2_server::supervisor::Platform;

#[test]
fn anonymous_script_exact_text() {
    let s = build_script("/srv/alpha", "", "");
    assert_eq!(
        s,
        "force_install_dir \"/srv/alpha\"\n\
         login anonymous\n\
         app_update 730 validate\n\
         quit\n"
    );
}

#[test]
fn credentialed_script_exact_text() {
    let s = build_script("/srv/alpha", "gabe", "hunter2");
    assert_eq!(
        s,
        "force_install_dir \"/srv/alpha\"\n\
         login gabe hunter2\n\
         app_update 730 validate\n\
         quit\n"
    );
}

#[test]
fn empty_username_matches_anonymous_script() {
    // an empty username silently downgrades to anonymous login,
    // whatever password was typed
    let with_creds = build_script("/srv/alpha", "", "ignored");
    let anonymous = build_script("/srv/alpha", "", "");
    assert_eq!(with_creds, anonymous);
    assert!(with_creds.contains("login anonymous\n"));
}

#[test]
fn manager_requires_a_resolved_tool() {
    let err = match SteamManager::new(None) {
        Ok(_) => panic!("construction must fail without a resolved tool"),
        Err(e) => e,
    };
    assert_eq!(err, CoreError::ToolUnavailable);
    let m = SteamManager::new(Some("/usr/games/steamcmd".to_string())).unwrap();
    assert_eq!(m.tool_command().unwrap(), "/usr/games/steamcmd");
}

#[test]
fn download_and_update_scripts_are_identical() {
    let m = SteamManager::new(Some("/usr/games/steamcmd".to_string())).unwrap();
    let d = m.download_script("/srv/alpha").unwrap();
    let u = m.update_script("/srv/alpha").unwrap();
    assert_eq!(d, u);
    assert_eq!(d, build_script("/srv/alpha", "", ""));
}

#[test]
fn acquisition_plan_per_platform() {
    assert_eq!(
        plan_tool_acquisition(Some("/opt/tool".to_string()), Platform::Windows),
        ToolAcquisition::UseExisting("/opt/tool".to_string())
    );
    assert_eq!(
        plan_tool_acquisition(None, Platform::Linux),
        ToolAcquisition::AutoInstall
    );
    assert_eq!(
        plan_tool_acquisition(None, Platform::Windows),
        ToolAcquisition::Unavailable
    );
    assert_eq!(
        plan_tool_acquisition(None, Platform::Other),
        ToolAcquisition::Unavailable
    );
}

#[test]
fn tool_candidates_per_platform() {
    assert_eq!(
        steamcmd_candidates(Platform::Windows, None),
        vec!["C:\\steamcmd\\steamcmd.exe".to_string(), "steamcmd.exe".to_string()]
    );
    assert_eq!(
        steamcmd_candidates(Platform::Linux, Some("/home/user")),
        vec![
            "/usr/games/steamcmd".to_string(),
            "/usr/bin/steamcmd".to_string(),
            "/home/user/steamcmd/steamcmd.sh".to_string(),
            "./steamcmd.sh".to_string(),
            "steamcmd".to_string(),
        ]
    );
    assert_eq!(
        steamcmd_candidates(Platform::Linux, None),
        vec![
            "/usr/games/steamcmd".to_string(),
            "/usr/bin/steamcmd".to_string(),
            "./steamcmd.sh".to_string(),
            "steamcmd".to_string(),
        ]
    );
}

#[test]
fn acquisition_paths_and_url() {
    assert_eq!(steamcmd_install_dir("/home/user"), "/home/user/steamcmd");
    assert_eq!(
        steamcmd_script_path("/home/user"),
        "/home/user/steamcmd/steamcmd.sh"
    );
    assert_eq!(
        steamcmd_archive_path("/home/user"),
        "/home/user/steamcmd/steamcmd_linux.tar.gz"
    );
    assert_eq!(
        steamcmd_archive_url(),
        "https://steamcdn-a.akamaihd.net/client/installer/steamcmd_linux.tar.gz"
    );
    assert_eq!(script_file_path("/srv/alpha"), "/srv/alpha/steamscript");
    assert_eq!(
        tool_launch_args("/srv/alpha/steamscript"),
        vec!["+runscript".to_string(), "/srv/alpha/steamscript".to_string()]
    );
}

#[test]
fn run_success_cleans_script_then_succeeds() {
    let mut run = ProvisioningRun::begin();
    run.mark_script_written();
    run.mark_tool_started();
    let act = run.observe(RunEvent::ToolExited {
        success: true,
        code: Some(0),
    });
    assert_eq!(act, RunAction::CleanupOnly);
    run.mark_cleaned();
    assert!(run.finish().is_ok());
}

#[test]
fn run_failure_cleans_script_then_reports_exit_code() {
    let mut run = ProvisioningRun::begin();
    run.mark_script_written();
    run.mark_tool_started();
    let act = run.observe(RunEvent::ToolExited {
        success: false,
        code: Some(8),
    });
    assert_eq!(act, RunAction::CleanupOnly);
    run.mark_cleaned();
    assert_eq!(run.finish().unwrap_err(), CoreError::ToolFailed(Some(8)));
}

#[test]
fn run_cancellation_terminates_tool_and_cleans_script() {
    let mut run = ProvisioningRun::begin();
    run.mark_script_written();
    run.mark_tool_started();
    let act = run.observe(RunEvent::Interrupted);
    assert_eq!(act, RunAction::TerminateToolThenCleanup);
    run.mark_cleaned();
    assert_eq!(run.finish().unwrap_err(), CoreError::Cancelled);
}

#[test]
fn run_phases_advance_in_order() {
    let mut run = ProvisioningRun::begin();
    run.mark_script_written();
    run.mark_tool_started();
    run.observe(RunEvent::ToolExited {
        success: false,
        code: None,
    });
    run.mark_cleaned();
    assert_eq!(run.finish().unwrap_err(), CoreError::ToolFailed(None));
    // RunPhase values are plain data usable by the surrounding layer
    assert_ne!(RunPhase::Idle, RunPhase::ScriptCleaned);
}
