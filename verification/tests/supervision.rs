use cs2_server::errors::CoreError;
use cs2_server::supervisor::{
    backup_file_names, server_launch_args, ConfigFileSet, Platform, ProbeOutcome, ServerManager,
    StopAction,
};
use cs2_server::ServerStatus;

#[test]
fn second_start_is_rejected_and_handle_kept() {
    let mut m = ServerManager::new("/srv/alpha".to_string());
    assert!(m.can_start().is_ok());
    assert!(m.attach_handle(41).is_ok());
    assert_eq!(m.can_start(), Err(CoreError::AlreadyRunning));
    assert_eq!(m.attach_handle(42), Err(CoreError::AlreadyRunning));
    // the original handle is unaffected: stopping still targets it
    assert_eq!(m.stop(), StopAction::Terminate(41));
}

#[test]
fn stop_without_handle_is_a_no_op_success() {
    let mut m = ServerManager::new("/srv/alpha".to_string());
    assert_eq!(m.stop(), StopAction::NoAction);
    // and the slot stays empty
    assert_eq!(m.stop(), StopAction::NoAction);
}

#[test]
fn external_exit_is_observed_as_stopped() {
    let mut m = ServerManager::new("/srv/alpha".to_string());
    assert!(m.attach_handle(7).is_ok());
    assert_eq!(
        m.get_status(Some(ProbeOutcome::StillRunning)),
        ServerStatus::Running
    );
    // the process exits externally; the next poll observes it
    assert_eq!(m.get_status(Some(ProbeOutcome::Exited)), ServerStatus::Stopped);
    // the handle was discarded, so later polls stay Stopped
    assert_eq!(m.get_status(None), ServerStatus::Stopped);
    assert!(m.can_start().is_ok());
}

#[test]
fn failed_probe_reports_stopped_without_error() {
    let mut m = ServerManager::new("/srv/alpha".to_string());
    assert!(m.attach_handle(7).is_ok());
    assert_eq!(
        m.get_status(Some(ProbeOutcome::CheckFailed)),
        ServerStatus::Stopped
    );
    // a failed check is not an observed exit: the handle is kept
    assert_eq!(m.stop(), StopAction::Terminate(7));
}

#[test]
fn status_without_handle_is_stopped() {
    let mut m = ServerManager::new("/srv/alpha".to_string());
    assert_eq!(m.get_status(None), ServerStatus::Stopped);
}

#[test]
fn no_player_count_is_reported() {
    let m = ServerManager::new("/srv/alpha".to_string());
    assert!(m.get_player_count().is_none());
}

#[test]
fn executable_candidates_per_platform() {
    let m = ServerManager::new("/srv/alpha".to_string());
    assert_eq!(
        m.executable_candidates(Platform::Linux),
        vec![
            "/srv/alpha/game/bin/linuxsteamrt64/cs2".to_string(),
            "/srv/alpha/cs2.exe".to_string(),
        ]
    );
    assert_eq!(
        m.executable_candidates(Platform::Windows),
        vec![
            "/srv/alpha/game/bin/linuxsteamrt64/cs2.exe".to_string(),
            "/srv/alpha/cs2.exe".to_string(),
        ]
    );
}

#[test]
fn executable_resolution_takes_first_existing() {
    let candidates = vec!["/a/one".to_string(), "/a/two".to_string()];
    let r = ServerManager::get_executable_path(&candidates, &vec![false, true]);
    assert_eq!(r.unwrap(), "/a/two");
    let r = ServerManager::get_executable_path(&candidates, &vec![true, true]);
    assert_eq!(r.unwrap(), "/a/one");
    let r = ServerManager::get_executable_path(&candidates, &vec![false, false]);
    assert_eq!(r, Err(CoreError::ExecutableNotFound));
}

#[test]
fn server_is_directed_to_its_config_file() {
    assert_eq!(
        server_launch_args(),
        vec!["+exec".to_string(), "server.cfg".to_string()]
    );
}

#[test]
fn backup_file_names_fixed_set() {
    let names = backup_file_names();
    assert_eq!(
        names,
        vec!["server.cfg".to_string(), "autoexec.cfg".to_string()]
    );
}

#[test]
fn backup_then_modify_then_restore_recovers_content() {
    let live = ConfigFileSet {
        entries: vec![Some("hostname \"before\"\n".to_string()), Some("echo hi\n".to_string())],
    };
    let backup = live.create_backup();

    // the live configuration changes after the backup was taken
    let modified = ConfigFileSet {
        entries: vec![Some("hostname \"after\"\n".to_string()), None],
    };

    let restored = modified.restore_backup(Some(&backup)).unwrap();
    assert_eq!(
        restored.entries,
        vec![Some("hostname \"before\"\n".to_string()), Some("echo hi\n".to_string())]
    );
}

#[test]
fn restore_skips_files_absent_from_backup() {
    let live = ConfigFileSet {
        entries: vec![Some("a".to_string()), None],
    };
    let backup = live.create_backup();
    let modified = ConfigFileSet {
        entries: vec![Some("changed".to_string()), Some("new".to_string())],
    };
    let restored = modified.restore_backup(Some(&backup)).unwrap();
    // present in backup: recovered; absent from backup: left modified
    assert_eq!(
        restored.entries,
        vec![Some("a".to_string()), Some("new".to_string())]
    );
}

#[test]
fn restore_missing_backup_fails() {
    let live = ConfigFileSet {
        entries: vec![None, None],
    };
    assert_eq!(
        live.restore_backup(None).unwrap_err(),
        CoreError::BackupNotFound
    );
}
