//! Root probing.

use droidlog::executor::root::{interpret, is_root_identity, shell_args, RootProbe};
use droidlog::executor::{ExecMode, ExecOutput};

fn output(stdout: &str, stderr: &str, code: i32) -> ExecOutput {
    ExecOutput {
        stdout: stdout.to_owned(),
        stderr: stderr.to_owned(),
        code,
    }
}

#[test]
fn adb_mode_args_are_minimal() {
    assert_eq!(
        shell_args(ExecMode::Adb, "logcat"),
        vec!["shell".to_owned(), "logcat".to_owned()]
    );
}

#[test]
fn root_mode_args_wrap_with_su() {
    assert_eq!(
        shell_args(ExecMode::Root, "dmesg -w"),
        vec![
            "shell".to_owned(),
            "su".to_owned(),
            "-c".to_owned(),
            "dmesg -w".to_owned()
        ]
    );
}

#[test]
fn root_identity_detection() {
    assert!(is_root_identity("uid=0(root) gid=0(root) groups=0(root)"));
    assert!(is_root_identity("0"));
    assert!(!is_root_identity("uid=2000(shell) gid=2000(shell)"));
    assert!(!is_root_identity(""));
}

#[test]
fn root_identity_survives_a_localised_id() {
    // Measured on a real device: `su -c id` answered in Chinese. The old
    // token comparison (`uid=0(root)`) missed it and the app reported
    // "无 root" on a device that had just handed out uid 0.
    assert!(is_root_identity("用户id=0(root) 组id=0(root) 组=0(root)"));
    assert!(is_root_identity("0\n用户id=0(root) 组id=0(root) 组=0(root)"));
    // Groups being 0 is not evidence of root on its own.
    assert!(!is_root_identity("uid=2000(shell) gid=2000(shell) 组=0(root)"));
}

#[test]
fn successful_probe_reports_the_id_line_as_identity() {
    let probe = interpret(&output("0\nuid=0(root) gid=0(root)\n", "", 0));
    assert!(probe.available);
    assert_eq!(probe.identity.as_deref(), Some("uid=0(root) gid=0(root)"));
    assert_eq!(probe.reason, None);
}

#[test]
fn non_root_probe_does_not_leak_the_bare_uid_into_the_reason() {
    let probe = interpret(&output("2000\nuid=2000(shell) gid=2000(shell)\n", "", 0));
    assert!(!probe.available);
    assert_eq!(
        probe.reason.as_deref(),
        Some("uid=2000(shell) gid=2000(shell)")
    );
}

#[test]
fn successful_probe_reports_available() {
    let probe = interpret(&output("uid=0(root) gid=0(root)\n", "", 0));
    assert!(probe.available);
    assert_eq!(probe.reason, None);
}

#[test]
fn denied_probe_reports_stderr_reason() {
    let probe = interpret(&output("", "su: not found", 127));
    assert!(!probe.available);
    assert_eq!(probe.reason.as_deref(), Some("su: not found"));
}

#[test]
fn non_root_identity_is_unavailable() {
    let probe = interpret(&output("uid=2000(shell)\n", "", 0));
    assert!(!probe.available);
    assert_eq!(probe.reason.as_deref(), Some("uid=2000(shell)"));
}

#[test]
fn unavailable_helper_sets_reason() {
    let probe = RootProbe::unavailable("no device");
    assert!(!probe.available);
    assert_eq!(probe.reason.as_deref(), Some("no device"));
}
