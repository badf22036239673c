//! The adb transport: plans, server failures and recovery.

use std::time::Duration;

use droidlog::adb::locate::AdbSource;
use droidlog::adb::server::{is_daemon_failure, kill_plan, start_plan, BOOTSTRAP_TIMEOUT, KILL_TIMEOUT};
use droidlog::adb::{should_rebuild_server, Adb};
use droidlog::executor::{ExecMode, ExecOutput};

fn rebuild_needed(output: &ExecOutput) -> bool {
    should_rebuild_server(output)
}

fn failure(stderr: &str) -> ExecOutput {
    ExecOutput {
        stdout: String::new(),
        stderr: stderr.to_owned(),
        code: 1,
    }
}

#[test]
fn version_plan_is_adb_version() {
    let adb = Adb::with_program("adb");
    assert_eq!(adb.version_plan().args, vec!["version".to_owned()]);
}

#[test]
fn devices_plan_requests_long_format() {
    let adb = Adb::with_program("adb");
    assert_eq!(
        adb.devices_plan().args,
        vec!["devices".to_owned(), "-l".to_owned()]
    );
}

#[test]
fn target_carries_program_and_serial() {
    let adb = Adb::with_program("/opt/platform-tools/adb");
    let plan = adb
        .target(ExecMode::Adb, Some("SER1"))
        .plan("logcat -v threadtime");
    assert_eq!(plan.program, "/opt/platform-tools/adb");
    assert_eq!(plan.args.first().map(String::as_str), Some("-s"));
    assert_eq!(plan.args.get(1).map(String::as_str), Some("SER1"));
}

#[test]
fn explicit_program_reports_env_override_origin() {
    let adb = Adb::with_program("adb");
    assert_eq!(adb.program(), "adb");
    assert_eq!(adb.source(), AdbSource::EnvOverride);
}

#[test]
fn a_deaf_daemon_triggers_a_rebuild() {
    // This is the exact failure the app used to surface verbatim.
    let stderr = "* daemon not running; starting now at tcp:5037\n\
                  could not read ok from ADB Server\n\
                  * failed to start daemon\n\
                  adb.exe: failed to check server version: cannot connect to daemon";
    assert!(rebuild_needed(&failure(stderr)));
}

#[test]
fn a_successful_query_never_triggers_a_rebuild() {
    let ok = ExecOutput {
        stdout: "List of devices attached\n".to_owned(),
        stderr: String::new(),
        code: 0,
    };
    assert!(!rebuild_needed(&ok));
}

#[test]
fn ordinary_device_errors_do_not_restart_the_server() {
    // Restarting the server here would be a wasteful, surprising side effect.
    assert!(!rebuild_needed(&failure("error: no devices/emulators found")));
    assert!(!rebuild_needed(&failure("error: device 'ABC' not found")));
    assert!(!rebuild_needed(&failure("")));
}

#[test]
fn plans_are_well_formed() {
    assert_eq!(start_plan("adb").args, vec!["start-server".to_owned()]);
    assert_eq!(kill_plan("/x/adb").args, vec!["kill-server".to_owned()]);
    assert_eq!(kill_plan("/x/adb").program, "/x/adb");
}

#[test]
fn recognises_the_reported_failure_verbatim() {
    // The exact text the user hit, as adb emits it.
    let stderr = "* daemon not running; starting now at tcp:5037\n\
                  could not read ok from ADB Server\n\
                  * failed to start daemon\n\
                  adb.exe: failed to check server version: cannot connect to daemon";
    assert!(is_daemon_failure(stderr));
}

#[test]
fn recognises_each_marker_individually() {
    for marker in [
        "could not read ok from adb server",
        "failed to start daemon",
        "cannot connect to daemon",
        "failed to check server version",
        "adb server didn't ack",
        "connection refused",
    ] {
        assert!(
            is_daemon_failure(&format!("adb.exe: {marker}")),
            "marker not detected: {marker}"
        );
    }
}

#[test]
fn matching_is_case_insensitive() {
    assert!(is_daemon_failure("Cannot Connect To Daemon"));
}

#[test]
fn ordinary_failures_are_not_daemon_failures() {
    // A device-level problem must not trigger a server restart.
    assert!(!is_daemon_failure("error: device 'ABC' not found"));
    assert!(!is_daemon_failure("error: no devices/emulators found"));
    assert!(!is_daemon_failure(""));
}

#[test]
fn timeouts_are_generous_but_bounded() {
    assert!(Duration::from_secs(BOOTSTRAP_TIMEOUT) >= Duration::from_secs(5));
    assert!(Duration::from_secs(KILL_TIMEOUT) >= Duration::from_secs(1));
}
